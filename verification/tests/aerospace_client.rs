use aerostage::aerospace::{Aerospace, CommandExecutor, MockExecutor};

pub struct MockAerospaceCommandExecutor {
    result: Result<String, String>,
}

impl MockAerospaceCommandExecutor {
    fn with_success(value: &str) -> MockAerospaceCommandExecutor {
        MockAerospaceCommandExecutor { result: Ok(value.to_string()) }
    }

    fn with_failure(error: &str) -> MockAerospaceCommandExecutor {
        MockAerospaceCommandExecutor { result: Err(error.to_string()) }
    }
}

impl CommandExecutor for MockAerospaceCommandExecutor {
    fn execute(&self, _command: &str, _args: &[&str]) -> Result<String, String> {
        self.result.clone()
    }
}

#[test]
fn aerospace_test_lists_apps_successfully() {
    let executor = MockAerospaceCommandExecutor::with_success(
        r#"[{
            "app-name" : "TestApp",
            "app-bundle-id" : "com.test.app",
            "app-pid" : 42
        }
        ]"#,
    );

    let aerospace = Aerospace::new(executor);

    let apps = aerospace.list_apps().expect("Should parse listed apps.");

    assert_eq!(apps.len(), 1);

    let test_app = apps.first().expect("Should have first app.");
    assert_eq!(test_app.app_name, "TestApp");
    assert_eq!(test_app.app_bundle_id, "com.test.app");
    assert_eq!(test_app.app_pid, 42);
}

#[test]
fn aerospace_test_lists_apps_failure() {
    let executor = MockAerospaceCommandExecutor::with_failure(r#"Failed to execute aerospace."#);

    let aerospace = Aerospace::new(executor);

    let apps = aerospace.list_apps();

    assert!(apps.is_err());
}

#[test]
fn aerospace_test_list_windows_successfully() {
    let executor = MockAerospaceCommandExecutor::with_success(
        r#"[{
            "window-id" : 1,
            "window-title" : "TestWindow",
            "app-name" : "TestApp",
            "app-bundle-id": "com.example.test",
            "workspace" : "TestWorkspace"
        }
        ]"#,
    );

    let aerospace = Aerospace::new(executor);

    let windows = aerospace.list_windows().expect("Should parse listed windows.");

    assert_eq!(windows.len(), 1);

    let test_window = windows.first().expect("Should have first window.");
    assert_eq!(test_window.window_id, 1);
    assert_eq!(test_window.window_title, "TestWindow");
    assert_eq!(test_window.app_name, "TestApp");
    assert_eq!(test_window.app_bundle_id, "com.example.test");
    assert_eq!(test_window.workspace, "TestWorkspace");
}

#[test]
fn aerospace_test_list_windows_failure() {
    let executor = MockAerospaceCommandExecutor::with_failure(
        r#"ERROR: Failed to parse <output-format>. Unbalanced curly braces"#,
    );

    let aerospace = Aerospace::new(executor);

    let windows = aerospace.list_windows();

    assert!(windows.is_err());
}

#[test]
fn plain_listing_requires_every_window_field() {
    let executor = MockAerospaceCommandExecutor::with_success(r#"[{"window-id": 1, "app-name": "TestApp", "workspace": "1"}]"#);
    assert!(Aerospace::new(executor).list_windows().is_err());
}

#[test]
fn mock_client_lists_nothing() {
    let aerospace = Aerospace::mock();
    assert!(aerospace.list_windows().unwrap().is_empty());
    assert!(aerospace.list_workspaces().unwrap().is_empty());
    assert!(aerospace.move_node_to_workspace(&"1".to_string(), 3).is_ok());
    let failing = Aerospace::new(MockExecutor { stdout: String::new(), should_succeed: false });
    assert!(failing.list_monitors().is_err());
}

#[test]
fn monitors_read_signed_ids() {
    let executor = MockAerospaceCommandExecutor::with_success(
        r#"[{"monitor-id": -2147483648, "monitor-name": "Left"}, {"monitor-id": 7, "monitor-name": "Main"}]"#,
    );
    let monitors = Aerospace::new(executor).list_monitors().unwrap();
    assert_eq!(monitors[0].monitor_id, i32::MIN);
    assert_eq!(monitors[0].monitor_name, "Left");
    assert_eq!(monitors[1].monitor_id, 7);
}
