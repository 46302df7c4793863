//! The restore command's arguments.

use vstd::prelude::*;

verus! {

/// The arguments of the restore command: the stage file to restore.
#[derive(Debug)]
pub struct RestoreCommandHandler {
    pub stage: Option<String>,
}

} // verus!
