//! The backend that runs the AeroSpace command line tool.

use vstd::prelude::*;

use crate::aerospace::backend::common::{
    arg_refs, arg_texts, flatten_args, layout_args, list_apps_args, list_windows_args,
    list_workspaces_args, move_node_args, command_name, flatten_arguments, layout_arguments, list_apps_arguments,
    list_windows_arguments, list_workspaces_arguments, move_node_arguments, AerospaceCommand,
};
use crate::aerospace::backend::error::{AerospaceBackendError, AerospaceBackendErrorView};
use crate::aerospace::backend::AerospaceBackend;
use crate::aerospace::types::{
    AerospaceAppView, AerospaceWindowView, AerospaceWorkspaceView, AerospaceApp, AerospaceLayout, AerospaceWindow, AerospaceWindowId,
    AerospaceWorkspace, AerospaceWorkspaceId,
};
use crate::json::{decode_list, decode_list_spec, parse_json, spec_parse_json, FromJson};

verus! {

/// Runs a command of the AeroSpace tool: `Ok` with what it printed, or
/// `Err` with why it could not run or failed.
pub trait CommandExecutor {
    /// Whether `output` is an outcome that the executor may give when it
    /// runs `command` with `args`; an executor that says no more may give
    /// any outcome.
    open spec fn gives(&self, command: Seq<char>, args: Seq<Seq<char>>, output: Result<Seq<char>, Seq<char>>) -> bool {
        true
    }

    /// Runs `command` with `args`; what comes back is an outcome that the
    /// executor gives for them.
    fn execute(&self, command: &str, args: &[&str]) -> (r: Result<String, String>)
        ensures
            self.gives(command@, args@.map_values(|a: &str| a@), text_outcome(r)),
    ;
}

/// The texts of an outcome.
pub open spec fn text_outcome(output: Result<String, String>) -> Result<Seq<char>, Seq<char>> {
    match output {
        Ok(text) => Ok(text@),
        Err(message) => Err(message@),
    }
}

/// The items that a JSON text lists, where it is a JSON array whose items
/// all read as `T`.
pub open spec fn decoded_output<T: FromJson>(text: Seq<char>) -> Option<Seq<T::V>> {
    match spec_parse_json(text) {
        Some(v) => decode_list_spec::<T>(v),
        None => None,
    }
}

/// What a query yields for the outcome of running `command`: a failure to
/// run becomes [`AerospaceBackendError::Execute`], output that does not
/// decode becomes [`AerospaceBackendError::Deserialize`].
pub open spec fn query_outcome<T: FromJson>(command: AerospaceCommand, output: Result<Seq<char>, Seq<char>>) -> Result<Seq<T::V>, AerospaceBackendErrorView> {
    match output {
        Err(message) => Err(AerospaceBackendErrorView::Execute { command: command_name(command), message }),
        Ok(text) => match decoded_output::<T>(text) {
            Some(items) => Ok(items),
            None => Err(AerospaceBackendErrorView::Deserialize { command: command_name(command) }),
        },
    }
}

/// The contents of a query's result.
pub open spec fn items_outcome<T: DeepView>(r: Result<Vec<T>, AerospaceBackendError>) -> Result<Seq<T::V>, AerospaceBackendErrorView> {
    match r {
        Ok(items) => Ok(items.deep_view()),
        Err(e) => Err(e@),
    }
}

/// What a command that prints nothing of interest yields for the outcome of
/// running it.
pub open spec fn unit_outcome(command: AerospaceCommand, output: Result<Seq<char>, Seq<char>>) -> Result<(), AerospaceBackendErrorView> {
    match output {
        Err(message) => Err(AerospaceBackendErrorView::Execute { command: command_name(command), message }),
        Ok(_) => Ok(()),
    }
}

/// The contents of a command's result.
pub open spec fn unit_result(r: Result<(), AerospaceBackendError>) -> Result<(), AerospaceBackendErrorView> {
    match r {
        Ok(()) => Ok(()),
        Err(e) => Err(e@),
    }
}

/// Decodes what running `command` printed as a JSON list of `T` (see
/// [`query_outcome`]).
pub fn decode_query_output<T: FromJson>(command: &AerospaceCommand, output: Result<String, String>) -> (r: Result<Vec<T>, AerospaceBackendError>)
    ensures
        items_outcome(r) == query_outcome::<T>(*command, text_outcome(output)),
{
    match output {
        Err(message) => Err(AerospaceBackendError::Execute { command: String::from_str(command.as_str()), message }),
        Ok(text) => {
            let decoded = match parse_json(text.as_str()) {
                Some(v) => decode_list::<T>(&v),
                None => None,
            };
            match decoded {
                Some(items) => Ok(items),
                None => Err(AerospaceBackendError::Deserialize { command: String::from_str(command.as_str()) }),
            }
        },
    }
}

/// Turns the outcome of running `command` into the result of a command that
/// prints nothing of interest (see [`unit_outcome`]).
pub fn command_result(command: &AerospaceCommand, output: Result<String, String>) -> (r: Result<(), AerospaceBackendError>)
    ensures
        unit_result(r) == unit_outcome(*command, text_outcome(output)),
{
    match output {
        Err(message) => Err(AerospaceBackendError::Execute { command: String::from_str(command.as_str()), message }),
        Ok(_) => Ok(()),
    }
}

/// `--json` before `args`.
pub(crate) fn json_args<'a>(args: &Vec<&'a str>) -> (r: Vec<&'a str>)
    ensures
        r@.map_values(|a: &str| a@) == seq!["--json"@] + args@.map_values(|a: &str| a@),
{
    let mut full: Vec<&'a str> = Vec::new();
    full.push("--json");
    let mut i: usize = 0;
    while i < args.len()
        invariant
            i <= args.len(),
            full@.map_values(|a: &str| a@) == seq!["--json"@] + args@.take(i as int).map_values(|a: &str| a@),
        decreases args.len() - i,
    {
        let ghost before = full@;
        full.push(args[i]);
        assert(full@ == before.push(args@[i as int]));
        assert(full@.map_values(|a: &str| a@) =~= before.map_values(|a: &str| a@).push(args@[i as int]@));
        assert(args@.take(i + 1).map_values(|a: &str| a@) =~= args@.take(i as int).map_values(|a: &str| a@).push(args@[i as int]@));
        assert(full@.map_values(|a: &str| a@) =~= seq!["--json"@] + args@.take(i + 1).map_values(|a: &str| a@));
        i = i + 1;
    }
    assert(args@.take(i as int) =~= args@);
    full
}

/// The backend that runs the AeroSpace command line tool through an
/// executor.
pub struct AerospaceCliCBackend<E: CommandExecutor> {
    executor: E,
}

impl<E: CommandExecutor> AerospaceCliCBackend<E> {
    /// The executor that runs the commands.
    pub closed spec fn executor_spec(self) -> E {
        self.executor
    }

    /// A backend that runs its commands through `executor`.
    pub fn new(executor: E) -> (r: Self)
        ensures
            r.executor_spec() == executor,
    {
        Self { executor }
    }

    fn execute_aerospace(&self, command: &AerospaceCommand, args: &[&str]) -> (r: Result<String, String>)
        ensures
            self.executor_spec().gives(command_name(*command), args@.map_values(|a: &str| a@), text_outcome(r)),
    {
        self.executor.execute(command.as_str(), args)
    }

    fn query_aerospace<T: FromJson>(&self, command: &AerospaceCommand, args: &Vec<String>) -> (r: Result<Vec<T>, AerospaceBackendError>)
        ensures
            exists|output: Result<Seq<char>, Seq<char>>| {
                &&& self.executor_spec().gives(command_name(*command), seq!["--json"@] + arg_texts(args@), output)
                &&& items_outcome(r) == query_outcome::<T>(*command, output)
            },
    {
        let refs = arg_refs(args);
        let full_args = json_args(&refs);
        let full = full_args.as_slice();
        assert(full@ == full_args@);
        let output = self.execute_aerospace(command, full);
        decode_query_output::<T>(command, output)
    }

    fn run_aerospace(&self, command: &AerospaceCommand, args: &Vec<String>) -> (r: Result<(), AerospaceBackendError>)
        ensures
            exists|output: Result<Seq<char>, Seq<char>>| {
                &&& self.executor_spec().gives(command_name(*command), arg_texts(args@), output)
                &&& unit_result(r) == unit_outcome(*command, output)
            },
    {
        let refs = arg_refs(args);
        let arg_slice = refs.as_slice();
        assert(arg_slice@ == refs@);
        let output = self.execute_aerospace(command, arg_slice);
        command_result(command, output)
    }
}

impl<E: CommandExecutor> AerospaceBackend for AerospaceCliCBackend<E> {
    /// What decoding an outcome that the executor gives for `list-apps
    /// --json` with the application fields yields.
    open spec fn apps_answer(&self, answer: Result<Seq<AerospaceAppView>, AerospaceBackendErrorView>) -> bool {
        exists|output: Result<Seq<char>, Seq<char>>| {
            &&& self.executor_spec().gives(command_name(AerospaceCommand::ListApps), seq!["--json"@] + list_apps_args(), output)
            &&& answer == query_outcome::<AerospaceApp>(AerospaceCommand::ListApps, output)
        }
    }

    /// What decoding an outcome that the executor gives for `list-windows
    /// --json --all` with the window fields yields.
    open spec fn windows_answer(&self, answer: Result<Seq<AerospaceWindowView>, AerospaceBackendErrorView>) -> bool {
        exists|output: Result<Seq<char>, Seq<char>>| {
            &&& self.executor_spec().gives(command_name(AerospaceCommand::ListWindows), seq!["--json"@] + list_windows_args(), output)
            &&& answer == query_outcome::<AerospaceWindow>(AerospaceCommand::ListWindows, output)
        }
    }

    /// What decoding an outcome that the executor gives for
    /// `list-workspaces --json --all` with the workspace fields yields.
    open spec fn workspaces_answer(&self, answer: Result<Seq<AerospaceWorkspaceView>, AerospaceBackendErrorView>) -> bool {
        exists|output: Result<Seq<char>, Seq<char>>| {
            &&& self.executor_spec().gives(command_name(AerospaceCommand::ListWorkspaces), seq!["--json"@] + list_workspaces_args(), output)
            &&& answer == query_outcome::<AerospaceWorkspace>(AerospaceCommand::ListWorkspaces, output)
        }
    }

    /// What an outcome that the executor gives for `move-node-to-workspace
    /// --window-id <window_id> -- <workspace>` yields.
    open spec fn move_answer(&self, workspace: Seq<char>, window_id: u32, answer: Result<(), AerospaceBackendErrorView>) -> bool {
        exists|output: Result<Seq<char>, Seq<char>>| {
            &&& self.executor_spec().gives(command_name(AerospaceCommand::MoveNodeToWorkspace), move_node_args(workspace, window_id), output)
            &&& answer == unit_outcome(AerospaceCommand::MoveNodeToWorkspace, output)
        }
    }

    /// What an outcome that the executor gives for `layout --workspace
    /// <workspace> --root <layout>` yields.
    open spec fn layout_answer(&self, workspace: Seq<char>, layout: AerospaceLayout, answer: Result<(), AerospaceBackendErrorView>) -> bool {
        exists|output: Result<Seq<char>, Seq<char>>| {
            &&& self.executor_spec().gives(command_name(AerospaceCommand::ChangeLayout), layout_args(workspace, layout), output)
            &&& answer == unit_outcome(AerospaceCommand::ChangeLayout, output)
        }
    }

    /// What an outcome that the executor gives for `flatten-workspace-tree
    /// --workspace <workspace>` yields.
    open spec fn flatten_answer(&self, workspace: Seq<char>, answer: Result<(), AerospaceBackendErrorView>) -> bool {
        exists|output: Result<Seq<char>, Seq<char>>| {
            &&& self.executor_spec().gives(command_name(AerospaceCommand::FlattenWorkspaceTree), flatten_args(workspace), output)
            &&& answer == unit_outcome(AerospaceCommand::FlattenWorkspaceTree, output)
        }
    }

    fn list_apps(&self) -> (r: Result<Vec<AerospaceApp>, AerospaceBackendError>) {
        self.query_aerospace::<AerospaceApp>(&AerospaceCommand::ListApps, &list_apps_arguments())
    }

    fn list_workspaces(&self) -> (r: Result<Vec<AerospaceWorkspace>, AerospaceBackendError>) {
        self.query_aerospace::<AerospaceWorkspace>(&AerospaceCommand::ListWorkspaces, &list_workspaces_arguments())
    }

    fn list_windows(&self) -> (r: Result<Vec<AerospaceWindow>, AerospaceBackendError>) {
        self.query_aerospace::<AerospaceWindow>(&AerospaceCommand::ListWindows, &list_windows_arguments())
    }

    fn move_node_to_workspace(&self, workspace: &AerospaceWorkspaceId, window_id: AerospaceWindowId) -> (r: Result<(), AerospaceBackendError>) {
        self.run_aerospace(&AerospaceCommand::MoveNodeToWorkspace, &move_node_arguments(workspace.as_str(), window_id))
    }

    fn layout(&self, workspace: &AerospaceWorkspaceId, layout: &AerospaceLayout) -> (r: Result<(), AerospaceBackendError>) {
        self.run_aerospace(&AerospaceCommand::ChangeLayout, &layout_arguments(workspace.as_str(), layout))
    }

    fn flatten_workspace_tree(&self, workspace: &AerospaceWorkspaceId) -> (r: Result<(), AerospaceBackendError>) {
        self.run_aerospace(&AerospaceCommand::FlattenWorkspaceTree, &flatten_arguments(workspace.as_str()))
    }
}

} // verus!
