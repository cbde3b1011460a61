//! The arguments of the `mysql-dbadm` command, as plain values.
use vstd::prelude::*;

use crate::muscl_core::types::MySQLDatabase;

verus! {

/// The command line of `mysql-dbadm`.
#[derive(Debug)]
pub struct Args {
    pub command: Option<Command>,
    /// The path of the server socket.
    pub server_socket_path: Option<String>,
    /// The path of the configuration file.
    pub config: Option<String>,
    /// Show the help on editing permissions.
    pub help_editperm: bool,
}

/// A command of `mysql-dbadm`.
#[derive(Debug)]
pub enum Command {
    Create(CreateArgs),
    Drop(DatabaseDropArgs),
    Show(DatabaseShowArgs),
    Editperm(EditPermArgs),
}

/// Create databases.
#[derive(Debug)]
pub struct CreateArgs {
    pub name: Vec<MySQLDatabase>,
}

/// Drop databases.
#[derive(Debug)]
pub struct DatabaseDropArgs {
    pub name: Vec<MySQLDatabase>,
}

/// Show the privileges on databases.
#[derive(Debug)]
pub struct DatabaseShowArgs {
    pub name: Vec<MySQLDatabase>,
}

/// Edit the permissions on a database.
#[derive(Debug)]
pub struct EditPermArgs {
    pub database: MySQLDatabase,
}

} // verus!
