//! The built-in sources: environment variables and files.

pub mod env;
pub mod file;
