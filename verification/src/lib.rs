pub mod args;
pub mod muscl_core;
pub mod mysql_admutils_compatibility;
pub mod table;
pub mod text;
