//! What both backends share: the commands of the AeroSpace tool and the
//! output format that asks it for fields.

use vstd::prelude::*;
use vstd::string::StringExecFns;

use crate::aerospace::types::{layout_name_spec, AerospaceLayout, AerospaceWindowId};
use crate::text::{decimal_spec, decimal_text};

verus! {

/// A command of the AeroSpace command line tool.
#[derive(Debug, Clone, Copy, PartialEq, Eq, Structural)]
pub enum AerospaceCommand {
    ListApps,
    ListWorkspaces,
    ListMonitors,
    ListWindows,
    MoveNodeToWorkspace,
    ChangeLayout,
    FlattenWorkspaceTree,
}

/// The name under which the AeroSpace tool knows a command.
pub open spec fn command_name(command: AerospaceCommand) -> Seq<char> {
    match command {
        AerospaceCommand::ListApps => "list-apps"@,
        AerospaceCommand::ListWorkspaces => "list-workspaces"@,
        AerospaceCommand::ListMonitors => "list-monitors"@,
        AerospaceCommand::ListWindows => "list-windows"@,
        AerospaceCommand::MoveNodeToWorkspace => "move-node-to-workspace"@,
        AerospaceCommand::ChangeLayout => "layout"@,
        AerospaceCommand::FlattenWorkspaceTree => "flatten-workspace-tree"@,
    }
}

impl AerospaceCommand {
    /// The name under which the AeroSpace tool knows the command (what
    /// `Display` printed).
    pub fn as_str(&self) -> (r: &'static str)
        ensures
            r@ == command_name(*self),
    {
        match self {
            AerospaceCommand::ListApps => "list-apps",
            AerospaceCommand::ListWorkspaces => "list-workspaces",
            AerospaceCommand::ListMonitors => "list-monitors",
            AerospaceCommand::ListWindows => "list-windows",
            AerospaceCommand::MoveNodeToWorkspace => "move-node-to-workspace",
            AerospaceCommand::ChangeLayout => "layout",
            AerospaceCommand::FlattenWorkspaceTree => "flatten-workspace-tree",
        }
    }
}

/// The placeholder `%{field}` that asks the tool for a field.
pub open spec fn field_placeholder(field: Seq<char>) -> Seq<char> {
    "%{"@ + field + "}"@
}

/// The placeholders of `fields`, separated by single spaces.
pub open spec fn format_spec(fields: Seq<Seq<char>>) -> Seq<char>
    decreases fields.len(),
{
    if fields.len() == 0 {
        Seq::empty()
    } else if fields.len() == 1 {
        field_placeholder(fields[0])
    } else {
        format_spec(fields.drop_last()) + " "@ + field_placeholder(fields.last())
    }
}

/// The output format that asks the AeroSpace tool for `included_fields`
/// (see [`format_spec`]).
pub fn format_aerospace(included_fields: &[&str]) -> (r: String)
    ensures
        r@ == format_spec(included_fields@.map_values(|f: &str| f@)),
{
    let ghost fields = included_fields@.map_values(|f: &str| f@);
    let mut out = String::new();
    let mut i: usize = 0;
    while i < included_fields.len()
        invariant
            i <= included_fields.len(),
            fields == included_fields@.map_values(|f: &str| f@),
            out@ == format_spec(fields.take(i as int)),
        decreases included_fields.len() - i,
    {
        proof {
            reveal_strlit(" ");
            reveal_strlit("%{");
            reveal_strlit("}");
            assert(fields.take(i + 1).drop_last() =~= fields.take(i as int));
        }
        if i > 0 {
            out.append(" ");
        }
        out.append("%{");
        out.append(included_fields[i]);
        out.append("}");
        proof {
            if i == 0 {
                assert(out@ =~= field_placeholder(fields[0]));
            } else {
                assert(out@ =~= format_spec(fields.take(i as int)) + " "@ + field_placeholder(fields[i as int]));
            }
        }
        i = i + 1;
    }
    assert(fields.take(i as int) =~= fields);
    out
}

/// The fields that the backends ask for when they list applications.
pub open spec fn app_fields() -> Seq<Seq<char>> {
    seq!["app-bundle-id"@, "app-name"@, "app-pid"@]
}

/// The fields that the backends ask for when they list workspaces.
pub open spec fn workspace_fields() -> Seq<Seq<char>> {
    seq!["workspace"@, "workspace-root-container-layout"@]
}

/// The fields that the backends ask for when they list windows.
pub open spec fn window_fields() -> Seq<Seq<char>> {
    seq!["window-id"@, "window-title"@, "app-name"@, "app-bundle-id"@, "workspace"@]
}

/// The arguments for listing applications: the output format.
pub open spec fn list_apps_args() -> Seq<Seq<char>> {
    seq!["--format"@, format_spec(app_fields())]
}

/// The arguments for listing all workspaces.
pub open spec fn list_workspaces_args() -> Seq<Seq<char>> {
    seq!["--all"@, "--format"@, format_spec(workspace_fields())]
}

/// The arguments for listing all windows.
pub open spec fn list_windows_args() -> Seq<Seq<char>> {
    seq!["--all"@, "--format"@, format_spec(window_fields())]
}

/// The arguments for moving a window to a workspace.
pub open spec fn move_node_args(workspace: Seq<char>, window_id: u32) -> Seq<Seq<char>> {
    seq!["--window-id"@, decimal_spec(window_id as nat), "--"@, workspace]
}

/// The arguments for setting the root layout of a workspace.
pub open spec fn layout_args(workspace: Seq<char>, layout: AerospaceLayout) -> Seq<Seq<char>> {
    seq!["--workspace"@, workspace, "--root"@, layout_name_spec(layout)]
}

/// The arguments for flattening a workspace's tree.
pub open spec fn flatten_args(workspace: Seq<char>) -> Seq<Seq<char>> {
    seq!["--workspace"@, workspace]
}

/// The texts of a list of arguments.
pub open spec fn arg_texts(args: Seq<String>) -> Seq<Seq<char>> {
    args.map_values(|a: String| a@)
}

/// Borrows each argument as a `&str`, in order.
pub fn arg_refs(args: &Vec<String>) -> (r: Vec<&str>)
    ensures
        r@.map_values(|a: &str| a@) == arg_texts(args@),
{
    let mut out: Vec<&str> = Vec::new();
    let mut i: usize = 0;
    while i < args.len()
        invariant
            i <= args.len(),
            out@.map_values(|a: &str| a@) == arg_texts(args@.take(i as int)),
        decreases args.len() - i,
    {
        let ghost before = out@;
        out.push(args[i].as_str());
        assert(out@.map_values(|a: &str| a@) =~= before.map_values(|a: &str| a@).push(args@[i as int]@));
        assert(arg_texts(args@.take(i + 1)) =~= arg_texts(args@.take(i as int)).push(args@[i as int]@));
        i = i + 1;
    }
    assert(args@.take(i as int) =~= args@);
    out
}

/// The arguments for listing applications (see [`list_apps_args`]).
pub fn list_apps_arguments() -> (r: Vec<String>)
    ensures
        arg_texts(r@) == list_apps_args(),
{
    let fields = vec!["app-bundle-id", "app-name", "app-pid"];
    let format = format_aerospace(fields.as_slice());
    proof {
        assert(fields@.map_values(|f: &str| f@) =~= app_fields());
    }
    let r = vec![String::from_str("--format"), format];
    assert(arg_texts(r@) =~= list_apps_args());
    r
}

/// The arguments for listing all workspaces (see
/// [`list_workspaces_args`]).
pub fn list_workspaces_arguments() -> (r: Vec<String>)
    ensures
        arg_texts(r@) == list_workspaces_args(),
{
    let fields = vec!["workspace", "workspace-root-container-layout"];
    let format = format_aerospace(fields.as_slice());
    proof {
        assert(fields@.map_values(|f: &str| f@) =~= workspace_fields());
    }
    let r = vec![String::from_str("--all"), String::from_str("--format"), format];
    assert(arg_texts(r@) =~= list_workspaces_args());
    r
}

/// The arguments for listing all windows (see [`list_windows_args`]).
pub fn list_windows_arguments() -> (r: Vec<String>)
    ensures
        arg_texts(r@) == list_windows_args(),
{
    let fields = vec!["window-id", "window-title", "app-name", "app-bundle-id", "workspace"];
    let format = format_aerospace(fields.as_slice());
    proof {
        assert(fields@.map_values(|f: &str| f@) =~= window_fields());
    }
    let r = vec![String::from_str("--all"), String::from_str("--format"), format];
    assert(arg_texts(r@) =~= list_windows_args());
    r
}

/// The arguments for moving window `window_id` to `workspace` (see
/// [`move_node_args`]).
pub fn move_node_arguments(workspace: &str, window_id: AerospaceWindowId) -> (r: Vec<String>)
    ensures
        arg_texts(r@) == move_node_args(workspace@, window_id),
{
    let r = vec![String::from_str("--window-id"), decimal_text(window_id as u64), String::from_str("--"), String::from_str(workspace)];
    assert(arg_texts(r@) =~= move_node_args(workspace@, window_id));
    r
}

/// The arguments for setting the root layout of `workspace` (see
/// [`layout_args`]).
pub fn layout_arguments(workspace: &str, layout: &AerospaceLayout) -> (r: Vec<String>)
    ensures
        arg_texts(r@) == layout_args(workspace@, *layout),
{
    let r = vec![String::from_str("--workspace"), String::from_str(workspace), String::from_str("--root"), String::from_str(layout.as_str())];
    assert(arg_texts(r@) =~= layout_args(workspace@, *layout));
    r
}

/// The arguments for flattening the tree of `workspace` (see
/// [`flatten_args`]).
pub fn flatten_arguments(workspace: &str) -> (r: Vec<String>)
    ensures
        arg_texts(r@) == flatten_args(workspace@),
{
    let r = vec![String::from_str("--workspace"), String::from_str(workspace)];
    assert(arg_texts(r@) =~= flatten_args(workspace@));
    r
}

} // verus!
