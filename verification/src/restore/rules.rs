//! The rules that pick a live window for a stage entry.

pub mod app_identity;
pub mod title_match;
pub mod workspace;
