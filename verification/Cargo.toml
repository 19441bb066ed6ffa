[package]
name = "secure_channel"
version = "0.1.0"
edition = "2021"
publish = false

[dependencies]
hex = "0.4"
rand = "0.8"
petname = { version = "2", default-features = false, features = ["default-rng", "default-words"] }
serde = { version = "1", features = ["derive"] }
serde_json = "1"
clap = { version = "4", features = ["derive"] }
home = "0.5"
thiserror = "1"
colorful = "0.2"
miette = "5"
indoc = "2"
once_cell = "1"
time = "0.3"
rusqlite = { version = "0.29", features = ["bundled"] }
