//! The migrations that bring a database of identities to its current shape.

use vstd::prelude::*;

verus! {

/// A change of the database's shape: the statements that make it and,
/// where it can be undone, the statements that undo it.
#[derive(Debug, PartialEq, Eq)]
pub struct Migration {
    pub up_statements: String,
    pub down_statements: Option<String>,
}

impl Clone for Migration {
    fn clone(&self) -> (copy: Self)
        ensures
            copy.up_statements@ == self.up_statements@,
            match (copy.down_statements, self.down_statements) {
                (Some(a), Some(b)) => a@ == b@,
                (None, None) => true,
                _ => false,
            },
    {
        Migration {
            up_statements: self.up_statements.clone(),
            down_statements: match &self.down_statements {
                Some(down) => Some(down.clone()),
                None => None,
            },
        }
    }
}

/// The statements that create the tables of identities and of their
/// attributes.
pub open spec fn spec_create_identity_table() -> Seq<char> {
    "\nCREATE TABLE identity (\n  identifier TEXT,\n  change_history BLOB\n);\n\nCREATE TABLE identity_attributes (\n  identifier TEXT,\n  attributes BLOB\n  added INTEGER NOT NULL,\n  expires INTEGER,\n  attested_by TEXT\n);\n    "@
}

/// The statements that create the tables of identities and of their
/// attributes.
pub fn create_identity_table() -> (statements: String)
    ensures
        statements@ == spec_create_identity_table(),
{
    String::from_str(
        "\nCREATE TABLE identity (\n  identifier TEXT,\n  change_history BLOB\n);\n\nCREATE TABLE identity_attributes (\n  identifier TEXT,\n  attributes BLOB\n  added INTEGER NOT NULL,\n  expires INTEGER,\n  attested_by TEXT\n);\n    ",
    )
}

impl Migration {
    /// A migration that cannot be undone.
    pub fn up(up: String) -> (migration: Self)
        ensures
            migration.up_statements == up,
            migration.down_statements is None,
    {
        Migration { up_statements: up, down_statements: None }
    }
}

/// The first migration: it creates the tables.
pub fn new() -> (migration: Migration)
    ensures
        migration.up_statements@ == spec_create_identity_table(),
        migration.down_statements is None,
{
    Migration::up(create_identity_table())
}

/// Every migration, oldest first.
pub fn all_migrations() -> (migrations: Vec<Migration>)
    ensures
        migrations@.len() == 1,
        migrations@[0].up_statements@ == spec_create_identity_table(),
        migrations@[0].down_statements is None,
{
    let mut migrations: Vec<Migration> = Vec::new();
    migrations.push(new());
    migrations
}

/// A time in seconds since the epoch.
#[derive(Clone, Copy, Debug, PartialEq, Eq, PartialOrd, Ord, Structural)]
pub struct TimestampInSeconds(pub u64);

/// A value as it comes out of the database, turned into what it stands for.
pub trait FromSql<T> {
    fn from_sql(self) -> T;
}

impl FromSql<TimestampInSeconds> for u64 {
    fn from_sql(self) -> (timestamp: TimestampInSeconds)
        ensures
            timestamp.0 == self,
    {
        TimestampInSeconds(self)
    }
}

} // verus!
