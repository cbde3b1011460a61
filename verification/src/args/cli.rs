//! The arguments of the database, user and other commands, as plain values.
use vstd::prelude::*;

use crate::muscl_core::database_privileges::cli::DatabasePrivilegeEditEntry;
use crate::muscl_core::types::MySQLDatabase;

verus! {

/// The database commands.
#[derive(Debug)]
pub struct DatabaseArgs {
    pub subcmd: DatabaseCommand,
}

/// A database command.
#[derive(Debug)]
pub enum DatabaseCommand {
    CreateDb(DatabaseCreateArgs),
    DropDb(DatabaseDropArgs),
    ShowDb(DatabaseShowArgs),
    ShowDbPrivs(DatabaseShowPrivsArgs),
    EditDbPrivs(DatabaseEditPrivsArgs),
}

/// Create databases.
#[derive(Debug)]
pub struct DatabaseCreateArgs {
    pub name: Vec<MySQLDatabase>,
    pub json: bool,
}

/// Drop databases.
#[derive(Debug)]
pub struct DatabaseDropArgs {
    pub name: Vec<MySQLDatabase>,
    pub json: bool,
}

/// Show databases.
#[derive(Debug)]
pub struct DatabaseShowArgs {
    pub name: Vec<MySQLDatabase>,
    pub json: bool,
}

/// Show the privileges on databases.
#[derive(Debug)]
pub struct DatabaseShowPrivsArgs {
    pub name: Vec<MySQLDatabase>,
    pub json: bool,
}

/// Edit the privileges on a database.
#[derive(Debug)]
pub struct DatabaseEditPrivsArgs {
    pub name: Option<MySQLDatabase>,
    pub privs: Vec<DatabasePrivilegeEditEntry>,
    pub json: bool,
    pub editor: Option<String>,
    pub yes: bool,
}

/// The other commands.
#[derive(Debug)]
pub enum OtherCommand {
    Status(StatusArgs),
}

/// Show the status of the server.
#[derive(Debug)]
pub struct StatusArgs {
    pub json: bool,
}

/// The user commands.
#[derive(Debug)]
pub struct UserArgs {
    pub subcmd: UserCommand,
}

/// A user command.
#[derive(Debug)]
pub enum UserCommand {
    CreateUser(UserCreateArgs),
    DropUser(UserDeleteArgs),
    PasswdUser(UserPasswdArgs),
    ShowUser(UserShowArgs),
    LockUser(UserLockArgs),
    UnlockUser(UserUnlockArgs),
}

/// Create users.
#[derive(Debug)]
pub struct UserCreateArgs {
    pub username: Vec<String>,
    pub no_password: bool,
}

/// Delete users.
#[derive(Debug)]
pub struct UserDeleteArgs {
    pub username: Vec<String>,
}

/// Change the password of a user.
#[derive(Debug)]
pub struct UserPasswdArgs {
    pub username: String,
    pub password_file: Option<String>,
}

/// Show users.
#[derive(Debug)]
pub struct UserShowArgs {
    pub username: Vec<String>,
    pub json: bool,
}

/// Lock users.
#[derive(Debug)]
pub struct UserLockArgs {
    pub username: Vec<String>,
}

/// Unlock users.
#[derive(Debug)]
pub struct UserUnlockArgs {
    pub username: Vec<String>,
}

} // verus!
