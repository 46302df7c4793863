//! Saves window-to-workspace assignments of the AeroSpace window manager as
//! stages and puts windows back onto their workspaces later.

pub mod aerospace;
pub mod arrangement;
pub mod capture;
pub mod cli;
pub mod common;
pub mod config;
pub mod json;
pub mod restore;
pub mod stage;
pub mod text;
pub mod types;
