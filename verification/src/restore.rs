//! Restoring a stage: matching the live windows to the stage's entries and
//! planning the moves that put them back.

pub mod command;
pub mod types;
pub mod rule;
pub mod rules;
pub mod resolution;
pub mod restore;
pub mod resolution_scenario;
pub mod roundtrip;
