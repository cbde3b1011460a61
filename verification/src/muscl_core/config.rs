//! The configuration of the connection to the MySQL server, and how the command line
//! overrides the configuration file.
use vstd::prelude::*;
use vstd::string::*;

use crate::text::{trim, trim_chars};

verus! {

/// The MySQL port used when none is configured.
pub const DEFAULT_PORT: u16 = 3306;

/// The seconds to wait for a connection when none are configured.
pub const DEFAULT_TIMEOUT: u64 = 2;

/// The configuration file.
#[derive(Debug)]
pub struct Config {
    pub mysql: MysqlConfig,
}

/// How to connect to the MySQL server.
#[derive(Debug)]
pub struct MysqlConfig {
    pub host: String,
    pub port: Option<u16>,
    pub username: String,
    pub password: String,
    pub timeout: Option<u64>,
}

/// The command line options about the configuration.
#[derive(Debug)]
pub struct GlobalConfigArgs {
    /// Path to the configuration file.
    pub config_file: String,
    /// Hostname of the MySQL server.
    pub mysql_host: Option<String>,
    /// Port of the MySQL server.
    pub mysql_port: Option<u16>,
    /// Username to use for the MySQL connection.
    pub mysql_user: Option<String>,
    /// Path to a file containing the MySQL password.
    pub mysql_password_file: Option<String>,
    /// Seconds to wait for the MySQL connection to be established.
    pub mysql_connect_timeout: Option<u64>,
}

/// The text of an optional string.
pub open spec fn opt_view(o: Option<String>) -> Option<Seq<char>> {
    match o {
        Some(s) => Some(s@),
        None => None,
    }
}

/// The value given on the command line, or else the configured one.
pub open spec fn or_configured<T>(given: Option<T>, configured: T) -> T {
    match given {
        Some(v) => v,
        None => configured,
    }
}

/// An optional value given on the command line, or else the configured one.
pub open spec fn or_else<T>(given: Option<T>, configured: Option<T>) -> Option<T> {
    match given {
        Some(v) => Some(v),
        None => configured,
    }
}

/// A string option, or a copy of the fallback.
fn string_or(given: &Option<String>, fallback: &String) -> (r: String)
    ensures
        r@ == or_configured(opt_view(*given), fallback@),
{
    match given {
        Some(s) => s.clone(),
        None => fallback.clone(),
    }
}

/// The configuration in effect: each option given on the command line replaces the one in
/// the file; the password is the content of the password file, trimmed, when one was given,
/// and otherwise the one in the file. `password_file_content` is what was read from the
/// password file named by the options.
pub fn get_config(args: &GlobalConfigArgs, file: &Config, password_file_content: Option<&str>) -> (r: Config)
    requires
        password_file_content is Some <==> args.mysql_password_file is Some,
    ensures
        r.mysql.host@ == or_configured(opt_view(args.mysql_host), file.mysql.host@),
        r.mysql.port == or_else(args.mysql_port, file.mysql.port),
        r.mysql.username@ == or_configured(opt_view(args.mysql_user), file.mysql.username@),
        r.mysql.password@ == match password_file_content {
            Some(c) => trim_chars(c@),
            None => file.mysql.password@,
        },
        r.mysql.timeout == or_else(args.mysql_connect_timeout, file.mysql.timeout),
{
    let mysql = &file.mysql;
    let password = match password_file_content {
        Some(c) => String::from_str(trim(c)),
        None => mysql.password.clone(),
    };
    let port = match args.mysql_port {
        Some(p) => Some(p),
        None => mysql.port,
    };
    let timeout = match args.mysql_connect_timeout {
        Some(t) => Some(t),
        None => mysql.timeout,
    };
    Config {
        mysql: MysqlConfig {
            host: string_or(&args.mysql_host, &mysql.host),
            port,
            username: string_or(&args.mysql_user, &mysql.username),
            password,
            timeout,
        },
    }
}

impl MysqlConfig {
    /// The port to connect to: the configured one, or 3306.
    pub fn connection_port(&self) -> (r: u16)
        ensures
            r == or_configured(self.port, DEFAULT_PORT),
    {
        match self.port {
            Some(p) => p,
            None => DEFAULT_PORT,
        }
    }

    /// The seconds to wait for the connection: the configured ones, or 2.
    pub fn connection_timeout(&self) -> (r: u64)
        ensures
            r == or_configured(self.timeout, DEFAULT_TIMEOUT),
    {
        match self.timeout {
            Some(t) => t,
            None => DEFAULT_TIMEOUT,
        }
    }
}

} // verus!
