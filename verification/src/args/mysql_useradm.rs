//! The arguments of the `mysql-useradm` command, as plain values.
use vstd::prelude::*;

use crate::muscl_core::types::MySQLUser;

verus! {

/// The command line of `mysql-useradm`.
#[derive(Debug)]
pub struct Args {
    pub command: Option<Command>,
    /// The path of the server socket.
    pub server_socket_path: Option<String>,
    /// The path of the configuration file.
    pub config: Option<String>,
}

/// A command of `mysql-useradm`.
#[derive(Debug)]
pub enum Command {
    Create(CreateArgs),
    Delete(DeleteArgs),
    Passwd(PasswdArgs),
    Show(ShowArgs),
}

/// Create users.
#[derive(Debug)]
pub struct CreateArgs {
    pub name: Vec<MySQLUser>,
}

/// Delete users.
#[derive(Debug)]
pub struct DeleteArgs {
    pub name: Vec<MySQLUser>,
}

/// Change the passwords of users.
#[derive(Debug)]
pub struct PasswdArgs {
    pub name: Vec<MySQLUser>,
}

/// Show users.
#[derive(Debug)]
pub struct ShowArgs {
    pub name: Vec<MySQLUser>,
}

} // verus!
