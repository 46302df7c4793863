//! The command line: its options and subcommands, and the handler each
//! subcommand turns into.

use vstd::prelude::*;

use crate::capture::command::CaptureCommandHandler;
use crate::restore::command::RestoreCommandHandler;
use crate::stage::commands::{StageListCommandHandler, StageShowCommandHandler};

verus! {

/// The command line: an optional configuration file and a subcommand.
#[derive(Debug)]
pub struct Cli {
    pub config: Option<String>,
    pub command: Commands,
}

/// The arguments of `capture`.
#[derive(Debug)]
pub struct CaptureArgs {
    pub output: Option<String>,
    pub workspaces: Option<String>,
    pub default_workspace: Option<String>,
    pub name: Option<String>,
}

/// The arguments of `restore`.
#[derive(Debug)]
pub struct RestoreArgs {
    pub stage: String,
}

/// The arguments of `list`.
#[derive(Debug)]
pub struct ListArgs {
    pub json: bool,
}

/// The arguments of `show`.
#[derive(Debug)]
pub struct ShowArgs {
    pub stage: String,
}

/// The subcommands.
#[derive(Debug)]
pub enum Commands {
    Capture(CaptureArgs),
    Restore(RestoreArgs),
    List(ListArgs),
    Show(ShowArgs),
}

impl From<RestoreArgs> for RestoreCommandHandler {
    fn from(args: RestoreArgs) -> (r: Self) {
        RestoreCommandHandler { stage: Some(args.stage) }
    }
}

impl vstd::std_specs::convert::FromSpecImpl<RestoreArgs> for RestoreCommandHandler {
    open spec fn obeys_from_spec() -> bool {
        true
    }

    open spec fn from_spec(args: RestoreArgs) -> RestoreCommandHandler {
        RestoreCommandHandler { stage: Some(args.stage) }
    }
}

impl From<CaptureArgs> for CaptureCommandHandler {
    fn from(args: CaptureArgs) -> (r: Self) {
        CaptureCommandHandler {
            output: args.output,
            name: args.name,
            workspaces: args.workspaces,
            default_workspace: args.default_workspace,
            stdout_output: false,
        }
    }
}

impl vstd::std_specs::convert::FromSpecImpl<CaptureArgs> for CaptureCommandHandler {
    open spec fn obeys_from_spec() -> bool {
        true
    }

    open spec fn from_spec(args: CaptureArgs) -> CaptureCommandHandler {
        CaptureCommandHandler {
            output: args.output,
            name: args.name,
            workspaces: args.workspaces,
            default_workspace: args.default_workspace,
            stdout_output: false,
        }
    }
}

impl From<ListArgs> for StageListCommandHandler {
    fn from(value: ListArgs) -> (r: Self) {
        StageListCommandHandler { json_output: value.json }
    }
}

impl vstd::std_specs::convert::FromSpecImpl<ListArgs> for StageListCommandHandler {
    open spec fn obeys_from_spec() -> bool {
        true
    }

    open spec fn from_spec(value: ListArgs) -> StageListCommandHandler {
        StageListCommandHandler { json_output: value.json }
    }
}

impl From<ShowArgs> for StageShowCommandHandler {
    fn from(value: ShowArgs) -> (r: Self) {
        StageShowCommandHandler { stage_path: value.stage }
    }
}

impl vstd::std_specs::convert::FromSpecImpl<ShowArgs> for StageShowCommandHandler {
    open spec fn obeys_from_spec() -> bool {
        true
    }

    open spec fn from_spec(value: ShowArgs) -> StageShowCommandHandler {
        StageShowCommandHandler { stage_path: value.stage }
    }
}

} // verus!
