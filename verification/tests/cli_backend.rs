use aerostage::aerospace::backend::cli::{AerospaceCliCBackend, CommandExecutor};
use aerostage::aerospace::backend::error::AerospaceBackendError;
use aerostage::aerospace::backend::AerospaceBackend;
use aerostage::aerospace::types::AerospaceLayout;
use std::cell::RefCell;
use std::rc::Rc;

struct MockAerospaceCommandExecutor {
    stdout: String,
    should_succeed: bool,
}

impl MockAerospaceCommandExecutor {
    fn with_success(stdout: &str) -> Self {
        Self { stdout: stdout.to_string(), should_succeed: true }
    }

    fn with_failure(_message: &str) -> Self {
        Self { stdout: String::new(), should_succeed: false }
    }
}

impl CommandExecutor for MockAerospaceCommandExecutor {
    fn execute(&self, _command: &str, _args: &[&str]) -> Result<String, String> {
        if self.should_succeed {
            Ok(self.stdout.clone())
        } else {
            Err("Mocked CLI failure".to_string())
        }
    }
}

struct RecordingExecutor {
    calls: Rc<RefCell<Vec<(String, Vec<String>)>>>,
}

impl CommandExecutor for RecordingExecutor {
    fn execute(&self, command: &str, args: &[&str]) -> Result<String, String> {
        self.calls
            .borrow_mut()
            .push((command.to_string(), args.iter().map(|a| a.to_string()).collect()));
        Ok("[]".to_string())
    }
}

#[test]
fn cli_test_lists_apps_successfully() {
    let executor = MockAerospaceCommandExecutor::with_success(
        r#"[{
            "app-name" : "TestApp",
            "app-bundle-id" : "com.test.app",
            "app-pid" : 42
        }
        ]"#,
    );

    let backend = AerospaceCliCBackend::new(executor);

    let apps = backend.list_apps().expect("Should parse listed apps.");

    assert_eq!(apps.len(), 1);

    let test_app = apps.first().expect("Should have first app.");
    assert_eq!(test_app.app_name, "TestApp");
    assert_eq!(test_app.app_bundle_id, "com.test.app");
    assert_eq!(test_app.app_pid, 42);
}

#[test]
fn cli_test_lists_apps_failure() {
    let executor = MockAerospaceCommandExecutor::with_failure(r#"Failed to execute aerospace."#);

    let backend = AerospaceCliCBackend::new(executor);

    let apps = backend.list_apps();

    assert!(apps.is_err());
}

#[test]
fn cli_test_list_windows_successfully() {
    let executor = MockAerospaceCommandExecutor::with_success(
        r#"[{
            "window-id" : 1,
            "window-title" : "TestWindow",
            "app-name" : "TestApp",
            "app-bundle-id": "com.example.test",
            "workspace" : "TestWorkspace"
        }
        ]"#,
    );

    let backend = AerospaceCliCBackend::new(executor);

    let windows = backend.list_windows().expect("Should parse listed windows.");

    assert_eq!(windows.len(), 1);

    let test_window = windows.first().expect("Should have first window.");
    assert_eq!(test_window.window_id, 1);
    assert_eq!(test_window.window_title, "TestWindow");
    assert_eq!(test_window.app_name, "TestApp");
    assert_eq!(test_window.app_bundle_id, "com.example.test");
    assert_eq!(test_window.workspace, "TestWorkspace");
}

#[test]
fn cli_test_list_windows_failure() {
    let executor = MockAerospaceCommandExecutor::with_failure(
        r#"ERROR: Failed to parse <output-format>. Unbalanced curly braces"#,
    );

    let backend = AerospaceCliCBackend::new(executor);

    let windows = backend.list_windows();

    assert!(windows.is_err());
}

#[test]
fn test_list_windows_missing_optional_fields_default() {
    let executor = MockAerospaceCommandExecutor::with_success(
        r#"[{
            "window-id" : 1,
            "app-name" : "TestApp",
            "workspace" : "1"
        }]"#,
    );

    let backend = AerospaceCliCBackend::new(executor);
    let windows = backend.list_windows().expect("Should parse listed windows.");
    let window = windows.first().unwrap();

    assert_eq!(window.window_id, 1);
    assert_eq!(window.window_title, "");
    assert_eq!(window.app_bundle_id, "");
}

#[test]
fn list_windows_reads_null_fields_as_empty() {
    let executor = MockAerospaceCommandExecutor::with_success(
        r#"[{"window-id": 9, "window-title": null, "app-name": "A", "app-bundle-id": null, "workspace": null}]"#,
    );
    let windows = AerospaceCliCBackend::new(executor).list_windows().unwrap();
    assert_eq!(windows[0].window_id, 9);
    assert_eq!(windows[0].window_title, "");
    assert_eq!(windows[0].workspace, "");
}

#[test]
fn list_windows_rejects_output_that_is_not_a_window_list() {
    for output in ["not-json", "{}", r#"[{"window-title": "x"}]"#, r#"[{"window-id": -1}]"#, r#"[{"window-id": 4294967296}]"#] {
        let executor = MockAerospaceCommandExecutor::with_success(output);
        let error = AerospaceCliCBackend::new(executor).list_windows().unwrap_err();
        assert!(matches!(error, AerospaceBackendError::Deserialize { ref command } if command == "list-windows"));
    }
}

#[test]
fn list_apps_failure_keeps_the_command_and_the_message() {
    let error = AerospaceCliCBackend::new(MockAerospaceCommandExecutor::with_failure("x")).list_apps().unwrap_err();
    match error {
        AerospaceBackendError::Execute { command, message } => {
            assert_eq!(command, "list-apps");
            assert_eq!(message, "Mocked CLI failure");
        }
        other => panic!("unexpected error {other:?}"),
    }
}

#[test]
fn list_workspaces_reads_layouts() {
    let executor = MockAerospaceCommandExecutor::with_success(
        r#"[{"workspace": "1", "workspace-root-container-layout": "h_tiles"},
            {"workspace": "2", "workspace-root-container-layout": "v_accordion"}]"#,
    );
    let workspaces = AerospaceCliCBackend::new(executor).list_workspaces().unwrap();
    assert_eq!(workspaces.len(), 2);
    assert_eq!(workspaces[0].workspace, "1");
    assert_eq!(workspaces[0].layout, AerospaceLayout::HTiles);
    assert_eq!(workspaces[1].layout, AerospaceLayout::VAccordion);
}

#[test]
fn recorded_arguments_match_the_tool() {
    let calls = Rc::new(RefCell::new(Vec::new()));
    let backend = AerospaceCliCBackend::new(RecordingExecutor { calls: calls.clone() });
    backend.list_apps().unwrap();
    backend.list_workspaces().unwrap();
    backend.move_node_to_workspace(&"main".to_string(), 42).unwrap();
    backend.layout(&"coding".to_string(), &AerospaceLayout::VAccordion).unwrap();
    backend.flatten_workspace_tree(&"1".to_string()).unwrap();
    let calls = calls.borrow();
    assert_eq!(calls[0].0, "list-apps");
    assert_eq!(calls[0].1, ["--json", "--format", "%{app-bundle-id} %{app-name} %{app-pid}"]);
    assert_eq!(calls[1].0, "list-workspaces");
    assert_eq!(calls[1].1, ["--json", "--all", "--format", "%{workspace} %{workspace-root-container-layout}"]);
    assert_eq!(calls[2].0, "move-node-to-workspace");
    assert_eq!(calls[2].1, ["--window-id", "42", "--", "main"]);
    assert_eq!(calls[3].0, "layout");
    assert_eq!(calls[3].1, ["--workspace", "coding", "--root", "v_accordion"]);
    assert_eq!(calls[4].0, "flatten-workspace-tree");
    assert_eq!(calls[4].1, ["--workspace", "1"]);
}
