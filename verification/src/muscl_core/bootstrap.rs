//! How the client reaches a server: through a server socket, or by starting a server itself
//! when the executable runs with the privileges of another user or group.
use vstd::prelude::*;
use vstd::string::*;

use crate::text::push_str;

verus! {

/// What the client knows when it decides how to reach a server.
#[derive(Debug, Clone, Copy, PartialEq, Eq, Structural)]
pub struct ServerSituation {
    /// Whether a socket path was given on the command line.
    pub socket_path_given: bool,
    /// Whether a configuration path was given on the command line.
    pub config_path_given: bool,
    /// Whether the socket exists at the default path.
    pub default_socket_exists: bool,
    /// Whether the configuration file exists at the default path.
    pub default_config_exists: bool,
    /// Whether the tool was built to run as a set-user-id or set-group-id executable.
    pub suid_sgid_mode: bool,
}

/// Whether the client connects to a running server (`true`) or starts one itself (`false`),
/// or the message when it can do neither: a given socket comes first, then, where the tool
/// may start a server, a given configuration, then the default socket, then the default
/// configuration.
pub open spec fn external_server_choice(s: ServerSituation) -> Result<bool, Seq<char>> {
    if s.socket_path_given {
        Ok(true)
    } else if s.suid_sgid_mode && s.config_path_given {
        Ok(false)
    } else if s.default_socket_exists {
        Ok(true)
    } else if s.suid_sgid_mode && s.default_config_exists {
        Ok(false)
    } else if s.suid_sgid_mode {
        Err("No socket path or config path provided, and no default socket or config found"@)
    } else {
        Err("No socket path provided, and no default socket found"@)
    }
}

/// Decides whether the client connects to a running server or starts one itself.
pub fn will_connect_to_external_server(s: ServerSituation) -> (r: Result<bool, String>)
    ensures
        match external_server_choice(s) {
            Ok(b) => r == Ok::<bool, String>(b),
            Err(m) => r is Err && r->Err_0@ == m,
        },
{
    if s.socket_path_given {
        Ok(true)
    } else if s.suid_sgid_mode && s.config_path_given {
        Ok(false)
    } else if s.default_socket_exists {
        Ok(true)
    } else if s.suid_sgid_mode && s.default_config_exists {
        Ok(false)
    } else if s.suid_sgid_mode {
        Err(String::from_str("No socket path or config path provided, and no default socket or config found"))
    } else {
        Err(String::from_str("No socket path provided, and no default socket found"))
    }
}

/// Which socket the client connects to.
#[derive(Debug, Clone, Copy, PartialEq, Eq, Structural)]
pub enum SocketChoice {
    /// The socket given on the command line.
    Given,
    /// The socket at the default path.
    Default,
}

/// The socket to connect to: the given one, else the default one if it exists.
pub fn choose_socket(socket_path_given: bool, default_socket_exists: bool) -> (r: Result<SocketChoice, String>)
    ensures
        socket_path_given ==> r == Ok::<SocketChoice, String>(SocketChoice::Given),
        !socket_path_given && default_socket_exists ==> r == Ok::<SocketChoice, String>(SocketChoice::Default),
        !socket_path_given && !default_socket_exists ==> r is Err && r->Err_0@ == "No socket path provided, and no default socket found"@,
{
    if socket_path_given {
        Ok(SocketChoice::Given)
    } else if default_socket_exists {
        Ok(SocketChoice::Default)
    } else {
        Err(String::from_str("No socket path provided, and no default socket found"))
    }
}

/// Why connecting to a socket failed.
#[derive(Debug, Clone, Copy, PartialEq, Eq, Structural)]
pub enum ConnectFailure {
    NotFound,
    PermissionDenied,
    Other,
}

/// The message for a failed connection to a socket; `detail` is the error as the system
/// reports it.
pub fn connect_error_message(kind: ConnectFailure, detail: &str) -> (r: String)
    ensures
        r@ == match kind {
            ConnectFailure::NotFound => "Socket not found"@,
            ConnectFailure::PermissionDenied => "Permission denied"@,
            ConnectFailure::Other => "Failed to connect to socket: "@ + detail@,
        },
{
    match kind {
        ConnectFailure::NotFound => String::from_str("Socket not found"),
        ConnectFailure::PermissionDenied => String::from_str("Permission denied"),
        ConnectFailure::Other => {
            let mut s = String::from_str("Failed to connect to socket: ");
            push_str(&mut s, detail);
            s
        },
    }
}

/// Which configuration a server started by the client reads.
#[derive(Debug, Clone, Copy, PartialEq, Eq, Structural)]
pub enum ConfigChoice {
    /// The configuration given on the command line.
    Given,
    /// The configuration at the default path.
    Default,
}

/// The message for an executable without the privileges to start a server.
pub open spec fn not_suid_message() -> Seq<char> {
    "Executable is not SUID/SGID - refusing to start internal sever"@
}

/// The configuration a server started by the client reads, or why it cannot start one: the
/// given configuration must be readable, the default one must exist, and either way the
/// executable must run with the privileges of another user or group.
pub fn choose_internal_server_config(
    config_path_given: bool,
    given_config_readable: bool,
    default_config_exists: bool,
    executable_is_suid_or_sgid: bool,
) -> (r: Result<ConfigChoice, String>)
    ensures
        config_path_given ==> (if !executable_is_suid_or_sgid {
            r is Err && r->Err_0@ == not_suid_message()
        } else if !given_config_readable {
            r is Err && r->Err_0@ == "Config file not found or not readable"@
        } else {
            r == Ok::<ConfigChoice, String>(ConfigChoice::Given)
        }),
        !config_path_given ==> (if !default_config_exists {
            r is Err && r->Err_0@ == "No config path provided, and no default config found"@
        } else if !executable_is_suid_or_sgid {
            r is Err && r->Err_0@ == not_suid_message()
        } else {
            r == Ok::<ConfigChoice, String>(ConfigChoice::Default)
        }),
{
    if config_path_given {
        if !executable_is_suid_or_sgid {
            return Err(String::from_str("Executable is not SUID/SGID - refusing to start internal sever"));
        }
        if !given_config_readable {
            return Err(String::from_str("Config file not found or not readable"));
        }
        return Ok(ConfigChoice::Given);
    }
    if default_config_exists {
        if !executable_is_suid_or_sgid {
            return Err(String::from_str("Executable is not SUID/SGID - refusing to start internal sever"));
        }
        return Ok(ConfigChoice::Default);
    }
    Err(String::from_str("No config path provided, and no default config found"))
}

} // verus!
