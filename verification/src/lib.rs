//! Mutually authenticated secure-channel handshake between identities, with the
//! local state registry and the commands that operate on it.

pub mod bytes;
pub mod cli_state;
pub mod codec;
pub mod command;
pub mod credential;
pub mod error;
pub mod handshake;
pub mod handshake_state_machine;
pub mod identity;
pub mod initiator_state_machine;
pub mod invitations;
pub mod key_schedule;
pub mod laws;
pub mod migration;
pub mod model_state;
pub mod model_vault;
pub mod path;
pub mod payload;
pub mod responder_state_machine;
pub mod text;
pub mod trust_policy;
pub mod vault;
pub mod vault_sync;
