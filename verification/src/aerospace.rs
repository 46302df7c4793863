//! The AeroSpace window manager as the library sees it: its data types, the
//! backends that talk to it, and the client on top. This module itself holds
//! the plain command line client, whose listings require every field.

pub mod backend;
pub mod client;
pub mod types;

use vstd::prelude::*;
use vstd::string::StringExecFns;

pub use crate::aerospace::backend::cli::CommandExecutor;
use crate::aerospace::backend::cli::{
    text_outcome, command_result, decode_query_output, items_outcome, json_args, query_outcome, unit_outcome,
    unit_result,
};
use crate::aerospace::backend::common::{
    app_fields, command_name, format_aerospace, format_spec, list_apps_args, list_windows_args,
    window_fields, AerospaceCommand,
};
use crate::aerospace::backend::error::AerospaceBackendError;
use crate::aerospace::types::{AerospaceAppView, AerospaceMonitorView, AerospaceWindowView};
use crate::json::{
    member, member_spec, required_i32, required_i32_spec, required_string, required_string_spec,
    required_unsigned, required_unsigned_spec, FromJson, JsonValue,
};
use crate::text::{decimal_spec, decimal_text};

verus! {

/// An application, as the plain listing describes it.
#[derive(Debug, Clone)]
pub struct AerospaceApp {
    pub app_bundle_id: String,
    pub app_name: String,
    pub app_pid: u32,
}

/// A workspace, as the plain listing describes it.
#[derive(Debug, Clone)]
pub struct AerospaceWorkspace {
    pub workspace: String,
}

/// A monitor, as the plain listing describes it.
#[derive(Debug, Clone)]
pub struct AerospaceMonitor {
    pub monitor_id: i32,
    pub monitor_name: String,
}

/// A window, as the plain listing describes it.
#[derive(Debug, Clone)]
pub struct AerospaceWindow {
    pub window_id: u32,
    pub window_title: String,
    pub app_name: String,
    pub app_bundle_id: String,
    pub workspace: String,
}

impl DeepView for AerospaceApp {
    type V = AerospaceAppView;

    open spec fn deep_view(&self) -> AerospaceAppView {
        AerospaceAppView { app_bundle_id: self.app_bundle_id@, app_name: self.app_name@, app_pid: self.app_pid }
    }
}

impl DeepView for AerospaceWorkspace {
    type V = Seq<char>;

    open spec fn deep_view(&self) -> Seq<char> {
        self.workspace@
    }
}

impl DeepView for AerospaceMonitor {
    type V = AerospaceMonitorView;

    open spec fn deep_view(&self) -> AerospaceMonitorView {
        AerospaceMonitorView { monitor_id: self.monitor_id, monitor_name: self.monitor_name@ }
    }
}

impl DeepView for AerospaceWindow {
    type V = AerospaceWindowView;

    open spec fn deep_view(&self) -> AerospaceWindowView {
        AerospaceWindowView {
            window_id: self.window_id,
            window_title: self.window_title@,
            app_name: self.app_name@,
            app_bundle_id: self.app_bundle_id@,
            workspace: self.workspace@,
        }
    }
}

impl FromJson for AerospaceApp {
    /// An object with `app-bundle-id` and `app-name` strings and an
    /// `app-pid` number that fits in `u32`.
    open spec fn from_json_spec(v: JsonValue) -> Option<AerospaceAppView> {
        match v {
            JsonValue::Object(entries) => {
                let bundle = required_string_spec(member_spec(entries@, "app-bundle-id"@));
                let name = required_string_spec(member_spec(entries@, "app-name"@));
                let pid = required_unsigned_spec(member_spec(entries@, "app-pid"@), 0xffff_ffff);
                if bundle is Some && name is Some && pid is Some {
                    Some(AerospaceAppView { app_bundle_id: bundle->0, app_name: name->0, app_pid: pid->0 as u32 })
                } else {
                    None
                }
            },
            _ => None,
        }
    }

    fn from_json(v: &JsonValue) -> (r: Option<AerospaceApp>) {
        match v {
            JsonValue::Object(entries) => {
                let bundle = required_string(member(entries, "app-bundle-id"));
                let name = required_string(member(entries, "app-name"));
                let pid = required_unsigned(member(entries, "app-pid"), 0xffff_ffff);
                match (bundle, name, pid) {
                    (Some(bundle), Some(name), Some(pid)) => Some(AerospaceApp { app_bundle_id: bundle, app_name: name, app_pid: pid as u32 }),
                    _ => None,
                }
            },
            _ => None,
        }
    }
}

impl FromJson for AerospaceWorkspace {
    /// An object with a `workspace` string.
    open spec fn from_json_spec(v: JsonValue) -> Option<Seq<char>> {
        match v {
            JsonValue::Object(entries) => required_string_spec(member_spec(entries@, "workspace"@)),
            _ => None,
        }
    }

    fn from_json(v: &JsonValue) -> (r: Option<AerospaceWorkspace>) {
        match v {
            JsonValue::Object(entries) => match required_string(member(entries, "workspace")) {
                Some(workspace) => Some(AerospaceWorkspace { workspace }),
                None => None,
            },
            _ => None,
        }
    }
}

impl FromJson for AerospaceMonitor {
    /// An object with a `monitor-id` number that fits in `i32` and a
    /// `monitor-name` string.
    open spec fn from_json_spec(v: JsonValue) -> Option<AerospaceMonitorView> {
        match v {
            JsonValue::Object(entries) => {
                let id = required_i32_spec(member_spec(entries@, "monitor-id"@));
                let name = required_string_spec(member_spec(entries@, "monitor-name"@));
                if id is Some && name is Some {
                    Some(AerospaceMonitorView { monitor_id: id->0 as i32, monitor_name: name->0 })
                } else {
                    None
                }
            },
            _ => None,
        }
    }

    fn from_json(v: &JsonValue) -> (r: Option<AerospaceMonitor>) {
        match v {
            JsonValue::Object(entries) => {
                let id = required_i32(member(entries, "monitor-id"));
                let name = required_string(member(entries, "monitor-name"));
                match (id, name) {
                    (Some(id), Some(name)) => Some(AerospaceMonitor { monitor_id: id, monitor_name: name }),
                    _ => None,
                }
            },
            _ => None,
        }
    }
}

impl FromJson for AerospaceWindow {
    /// An object with a `window-id` number that fits in `u32` and
    /// `window-title`, `app-name`, `app-bundle-id` and `workspace` strings.
    open spec fn from_json_spec(v: JsonValue) -> Option<AerospaceWindowView> {
        match v {
            JsonValue::Object(entries) => {
                let id = required_unsigned_spec(member_spec(entries@, "window-id"@), 0xffff_ffff);
                let title = required_string_spec(member_spec(entries@, "window-title"@));
                let app = required_string_spec(member_spec(entries@, "app-name"@));
                let bundle = required_string_spec(member_spec(entries@, "app-bundle-id"@));
                let ws = required_string_spec(member_spec(entries@, "workspace"@));
                if id is Some && title is Some && app is Some && bundle is Some && ws is Some {
                    Some(AerospaceWindowView {
                        window_id: id->0 as u32,
                        window_title: title->0,
                        app_name: app->0,
                        app_bundle_id: bundle->0,
                        workspace: ws->0,
                    })
                } else {
                    None
                }
            },
            _ => None,
        }
    }

    fn from_json(v: &JsonValue) -> (r: Option<AerospaceWindow>) {
        match v {
            JsonValue::Object(entries) => {
                let id = required_unsigned(member(entries, "window-id"), 0xffff_ffff);
                let title = required_string(member(entries, "window-title"));
                let app = required_string(member(entries, "app-name"));
                let bundle = required_string(member(entries, "app-bundle-id"));
                let ws = required_string(member(entries, "workspace"));
                match (id, title, app, bundle, ws) {
                    (Some(id), Some(title), Some(app), Some(bundle), Some(ws)) => Some(AerospaceWindow {
                        window_id: id as u32,
                        window_title: title,
                        app_name: app,
                        app_bundle_id: bundle,
                        workspace: ws,
                    }),
                    _ => None,
                }
            },
            _ => None,
        }
    }
}

impl AerospaceWindow {
    /// A sample window: id 0, titled `Test Title`, of the application
    /// `Test App` (`com.example.test`), on workspace `1`.
    pub fn dummy() -> (r: Self)
        ensures
            r.deep_view() == (AerospaceWindowView {
                window_id: 0,
                window_title: "Test Title"@,
                app_name: "Test App"@,
                app_bundle_id: "com.example.test"@,
                workspace: "1"@,
            }),
    {
        AerospaceWindow {
            app_bundle_id: String::from_str("com.example.test"),
            app_name: String::from_str("Test App"),
            window_id: 0,
            workspace: String::from_str("1"),
            window_title: String::from_str("Test Title"),
        }
    }

    /// The window with another bundle id.
    pub fn with_bundle_id(self, bundle_id: &str) -> (r: Self)
        ensures
            r.deep_view() == (AerospaceWindowView { app_bundle_id: bundle_id@, ..self.deep_view() }),
    {
        AerospaceWindow { app_bundle_id: String::from_str(bundle_id), ..self }
    }

    /// The window with another id.
    pub fn with_window_id(self, window_id: u32) -> (r: Self)
        ensures
            r.deep_view() == (AerospaceWindowView { window_id, ..self.deep_view() }),
    {
        AerospaceWindow { window_id, ..self }
    }

    /// The window with another application name.
    pub fn with_app_name(self, app_name: &str) -> (r: Self)
        ensures
            r.deep_view() == (AerospaceWindowView { app_name: app_name@, ..self.deep_view() }),
    {
        AerospaceWindow { app_name: String::from_str(app_name), ..self }
    }

    /// The window on another workspace.
    pub fn with_workspace(self, workspace: &str) -> (r: Self)
        ensures
            r.deep_view() == (AerospaceWindowView { workspace: workspace@, ..self.deep_view() }),
    {
        AerospaceWindow { workspace: String::from_str(workspace), ..self }
    }

    /// The window with another title.
    pub fn with_window_title(self, window_title: &str) -> (r: Self)
        ensures
            r.deep_view() == (AerospaceWindowView { window_title: window_title@, ..self.deep_view() }),
    {
        AerospaceWindow { window_title: String::from_str(window_title), ..self }
    }
}

/// An executor that does not run anything: it answers with `stdout`, or
/// fails, as it is told.
#[derive(Debug, Clone)]
pub struct MockExecutor {
    pub stdout: String,
    pub should_succeed: bool,
}

impl Default for MockExecutor {
    /// An executor that answers `[]`.
    fn default() -> (r: Self)
        ensures
            r.stdout@ == "[]"@,
            r.should_succeed,
    {
        Self { stdout: String::from_str("[]"), should_succeed: true }
    }
}

impl CommandExecutor for MockExecutor {
    /// Whatever it is asked to run, the executor answers with `stdout` when
    /// it is to succeed, and fails with `Mocked CLI failure` otherwise.
    open spec fn gives(&self, command: Seq<char>, args: Seq<Seq<char>>, output: Result<Seq<char>, Seq<char>>) -> bool {
        output == if self.should_succeed {
            Ok::<Seq<char>, Seq<char>>(self.stdout@)
        } else {
            Err::<Seq<char>, Seq<char>>("Mocked CLI failure"@)
        }
    }

    fn execute(&self, command: &str, args: &[&str]) -> (r: Result<String, String>)
        ensures
            match r {
                Ok(out) => self.should_succeed && out@ == self.stdout@,
                Err(message) => !self.should_succeed && message@ == "Mocked CLI failure"@,
            },
    {
        if self.should_succeed {
            Ok(self.stdout.clone())
        } else {
            Err(String::from_str("Mocked CLI failure"))
        }
    }
}

/// The arguments with which the plain client lists all workspaces.
pub open spec fn plain_workspaces_args() -> Seq<Seq<char>> {
    seq!["--all"@, "--format"@, format_spec(seq!["workspace"@])]
}

/// The arguments with which the plain client lists monitors.
pub open spec fn list_monitors_args() -> Seq<Seq<char>> {
    seq!["--format"@, format_spec(seq!["monitor-id"@, "monitor-name"@])]
}

/// The arguments with which the plain client moves a window: its id, then
/// the workspace.
pub open spec fn plain_move_args(workspace: Seq<char>, window_id: u32) -> Seq<Seq<char>> {
    seq!["--window-id"@, decimal_spec(window_id as nat), workspace]
}

/// AeroSpace, reached by running its command line tool through an
/// executor.
pub struct Aerospace<E: CommandExecutor> {
    executor: E,
}

impl Aerospace<MockExecutor> {
    /// A client whose executor answers `[]`.
    pub fn mock() -> (r: Self)
        ensures
            r.executor_spec().stdout@ == "[]"@,
            r.executor_spec().should_succeed,
    {
        Self { executor: MockExecutor::default() }
    }
}

impl<E: CommandExecutor> Aerospace<E> {
    /// The executor that runs the commands.
    pub closed spec fn executor_spec(self) -> E {
        self.executor
    }

    /// A client that runs its commands through `executor`.
    pub fn new(executor: E) -> (r: Self)
        ensures
            r.executor_spec() == executor,
    {
        Self { executor }
    }

    fn execute_aerospace(&self, command: &AerospaceCommand, args: &[&str]) -> (r: Result<String, String>)
        ensures
            self.executor_spec().gives(command_name(*command), args@.map_values(|a: &str| a@), text_outcome(r)),
    {
        self.executor.execute(command.as_str(), args)
    }

    fn query_aerospace<T: FromJson>(&self, command: &AerospaceCommand, args: &Vec<&str>) -> (r: Result<Vec<T>, AerospaceBackendError>)
        ensures
            exists|output: Result<Seq<char>, Seq<char>>| {
                &&& self.executor_spec().gives(command_name(*command), seq!["--json"@] + args@.map_values(|a: &str| a@), output)
                &&& items_outcome(r) == query_outcome::<T>(*command, output)
            },
    {
        let full_args = json_args(args);
        let full = full_args.as_slice();
        assert(full@ == full_args@);
        let output = self.execute_aerospace(command, full);
        decode_query_output::<T>(command, output)
    }

    fn aerospace_output_format(&self, included_fields: &[&str]) -> (r: String)
        ensures
            r@ == format_spec(included_fields@.map_values(|f: &str| f@)),
    {
        format_aerospace(included_fields)
    }

    /// The running applications: what decoding the executor's outcome for
    /// `list-apps --json --format <application fields>` yields.
    pub fn list_apps(&self) -> (r: Result<Vec<AerospaceApp>, AerospaceBackendError>)
        ensures
            exists|output: Result<Seq<char>, Seq<char>>| {
                &&& self.executor_spec().gives(command_name(AerospaceCommand::ListApps), seq!["--json"@] + list_apps_args(), output)
                &&& items_outcome(r) == query_outcome::<AerospaceApp>(AerospaceCommand::ListApps, output)
            },
    {
        let field_names = vec!["app-bundle-id", "app-name", "app-pid"];
        let fields = self.aerospace_output_format(field_names.as_slice());
        let args = vec!["--format", fields.as_str()];
        assert(field_names@.map_values(|f: &str| f@) =~= app_fields());
        assert(args@.map_values(|a: &str| a@) =~= list_apps_args());
        self.query_aerospace::<AerospaceApp>(&AerospaceCommand::ListApps, &args)
    }

    /// All workspaces, by name: what decoding the executor's outcome for
    /// `list-workspaces --json --all --format %{workspace}` yields.
    pub fn list_workspaces(&self) -> (r: Result<Vec<AerospaceWorkspace>, AerospaceBackendError>)
        ensures
            exists|output: Result<Seq<char>, Seq<char>>| {
                &&& self.executor_spec().gives(command_name(AerospaceCommand::ListWorkspaces), seq!["--json"@] + plain_workspaces_args(), output)
                &&& items_outcome(r) == query_outcome::<AerospaceWorkspace>(AerospaceCommand::ListWorkspaces, output)
            },
    {
        let field_names = vec!["workspace"];
        let fields = self.aerospace_output_format(field_names.as_slice());
        let args = vec!["--all", "--format", fields.as_str()];
        assert(field_names@.map_values(|f: &str| f@) =~= seq!["workspace"@]);
        assert(args@.map_values(|a: &str| a@) =~= plain_workspaces_args());
        self.query_aerospace::<AerospaceWorkspace>(&AerospaceCommand::ListWorkspaces, &args)
    }

    /// The monitors: what decoding the executor's outcome for
    /// `list-monitors --json --format %{monitor-id} %{monitor-name}` yields.
    pub fn list_monitors(&self) -> (r: Result<Vec<AerospaceMonitor>, AerospaceBackendError>)
        ensures
            exists|output: Result<Seq<char>, Seq<char>>| {
                &&& self.executor_spec().gives(command_name(AerospaceCommand::ListMonitors), seq!["--json"@] + list_monitors_args(), output)
                &&& items_outcome(r) == query_outcome::<AerospaceMonitor>(AerospaceCommand::ListMonitors, output)
            },
    {
        let field_names = vec!["monitor-id", "monitor-name"];
        let fields = self.aerospace_output_format(field_names.as_slice());
        let args = vec!["--format", fields.as_str()];
        assert(field_names@.map_values(|f: &str| f@) =~= seq!["monitor-id"@, "monitor-name"@]);
        assert(args@.map_values(|a: &str| a@) =~= list_monitors_args());
        self.query_aerospace::<AerospaceMonitor>(&AerospaceCommand::ListMonitors, &args)
    }

    /// All windows: what decoding the executor's outcome for `list-windows
    /// --json --all --format <window fields>` yields.
    pub fn list_windows(&self) -> (r: Result<Vec<AerospaceWindow>, AerospaceBackendError>)
        ensures
            exists|output: Result<Seq<char>, Seq<char>>| {
                &&& self.executor_spec().gives(command_name(AerospaceCommand::ListWindows), seq!["--json"@] + list_windows_args(), output)
                &&& items_outcome(r) == query_outcome::<AerospaceWindow>(AerospaceCommand::ListWindows, output)
            },
    {
        let field_names = vec!["window-id", "window-title", "app-name", "app-bundle-id", "workspace"];
        let fields = self.aerospace_output_format(field_names.as_slice());
        let args = vec!["--all", "--format", fields.as_str()];
        assert(field_names@.map_values(|f: &str| f@) =~= window_fields());
        assert(args@.map_values(|a: &str| a@) =~= list_windows_args());
        self.query_aerospace::<AerospaceWindow>(&AerospaceCommand::ListWindows, &args)
    }

    /// Moves the window `window_id` to `workspace`: `Ok` exactly where the
    /// executor's outcome for `move-node-to-workspace --window-id
    /// <window_id> <workspace>` is.
    pub fn move_node_to_workspace(&self, workspace: &String, window_id: u32) -> (r: Result<(), AerospaceBackendError>)
        ensures
            exists|output: Result<Seq<char>, Seq<char>>| {
                &&& self.executor_spec().gives(command_name(AerospaceCommand::MoveNodeToWorkspace), plain_move_args(workspace@, window_id), output)
                &&& unit_result(r) == unit_outcome(AerospaceCommand::MoveNodeToWorkspace, output)
            },
    {
        let win_id_arg = decimal_text(window_id as u64);
        let args = vec!["--window-id", win_id_arg.as_str(), workspace.as_str()];
        let arg_slice = args.as_slice();
        assert(arg_slice@.map_values(|a: &str| a@) =~= plain_move_args(workspace@, window_id));
        let output = self.execute_aerospace(&AerospaceCommand::MoveNodeToWorkspace, arg_slice);
        command_result(&AerospaceCommand::MoveNodeToWorkspace, output)
    }
}

} // verus!
