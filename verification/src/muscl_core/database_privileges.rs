pub mod base;
pub mod cli;
pub mod diff;
pub mod diff_laws;
pub mod editor;
pub mod editor_laws;
pub mod order;
