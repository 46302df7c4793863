//! The settings of the tool.

use vstd::prelude::*;

verus! {

/// The settings: the directory that holds the stage files.
#[derive(Debug, Clone)]
pub struct Config {
    pub stage_directory: String,
}

} // verus!
