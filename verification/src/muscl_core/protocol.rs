pub mod commands;
pub mod output;
pub mod request_validation;
