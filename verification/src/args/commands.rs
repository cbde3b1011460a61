//! The arguments of the client's commands, as plain values.
use vstd::prelude::*;

use crate::muscl_core::database_privileges::cli::DatabasePrivilegeEditEntry;
use crate::muscl_core::types::{MySQLDatabase, MySQLUser};

verus! {

/// Check whether names may be used.
#[derive(Debug)]
pub struct CheckAuthArgs {
    /// The names to check.
    pub name: Vec<String>,
    /// Whether the names are user names rather than database names.
    pub users: bool,
    /// Print the information as JSON.
    pub json: bool,
}

/// Create databases.
#[derive(Debug)]
pub struct CreateDbArgs {
    pub name: Vec<MySQLDatabase>,
    pub json: bool,
}

/// Create users.
#[derive(Debug)]
pub struct CreateUserArgs {
    pub username: Vec<MySQLUser>,
    /// Do not ask for a password.
    pub no_password: bool,
    pub json: bool,
}

/// Drop databases.
#[derive(Debug)]
pub struct DropDbArgs {
    pub name: Vec<MySQLDatabase>,
    pub json: bool,
    /// Do not ask for confirmation.
    pub yes: bool,
}

/// Drop users.
#[derive(Debug)]
pub struct DropUserArgs {
    pub username: Vec<MySQLUser>,
    pub json: bool,
    /// Do not ask for confirmation.
    pub yes: bool,
}

/// Edit privileges, with an editor or with privilege edit entries.
#[derive(Debug)]
pub struct EditPrivsArgs {
    /// The database to edit privileges for.
    pub name: Option<MySQLDatabase>,
    /// The privilege edits, each `[DATABASE:]USER:[+-]PRIVILEGES`.
    pub privs: Vec<DatabasePrivilegeEditEntry>,
    pub json: bool,
    /// The text editor to use.
    pub editor: Option<String>,
    /// Do not ask for confirmation.
    pub yes: bool,
}

/// Lock users.
#[derive(Debug)]
pub struct LockUserArgs {
    pub username: Vec<MySQLUser>,
    pub json: bool,
}

/// Show databases.
#[derive(Debug)]
pub struct ShowDbArgs {
    pub name: Vec<MySQLDatabase>,
    pub json: bool,
    /// Show sizes in bytes.
    pub bytes: bool,
}

/// Show the privileges on databases.
#[derive(Debug)]
pub struct ShowPrivsArgs {
    pub name: Vec<MySQLDatabase>,
    pub json: bool,
    /// Fail when a database cannot be shown.
    pub fail: bool,
}

/// Show users.
#[derive(Debug)]
pub struct ShowUserArgs {
    pub username: Vec<MySQLUser>,
    pub json: bool,
    /// Fail when a user cannot be shown.
    pub fail: bool,
}

/// Unlock users.
#[derive(Debug)]
pub struct UnlockUserArgs {
    pub username: Vec<MySQLUser>,
    pub json: bool,
}

} // verus!
