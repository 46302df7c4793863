//! Helpers shared by the commands.

pub mod format;
