//! Discovery of the user's own personal information in local text.

pub mod filesystem;
pub mod matcher;
pub mod patterns;
pub mod regexes;
pub mod scanner;
pub mod types;
