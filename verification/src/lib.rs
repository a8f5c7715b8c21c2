//! Compact prompt paths and repository context for shell integration.

pub mod commands;
pub mod config;
pub mod git;
pub mod path;
pub mod short_path;
pub mod text;
pub mod utils;

pub use short_path::{shorten_path, ShortPath, ShortPathPart};
