pub mod cli;
pub mod commands;
pub mod mysql_dbadm;
pub mod mysql_useradm;
