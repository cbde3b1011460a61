pub mod authenticated_unix_socket;
pub mod bootstrap;
pub mod common;
pub mod completion;
pub mod config;
pub mod protocol;
pub mod database_privileges;
pub mod types;
