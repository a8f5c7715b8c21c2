//! What the commands of the program compute.

pub mod shell_init;
pub mod shortpath;
