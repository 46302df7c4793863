use aerostage::aerospace::backend::cli::decode_query_output;
use aerostage::aerospace::backend::common::{
    arg_refs, flatten_arguments, layout_arguments, list_apps_arguments, list_windows_arguments,
    list_workspaces_arguments, move_node_arguments, AerospaceCommand,
};
use aerostage::aerospace::backend::error::AerospaceBackendError;
use aerostage::aerospace::backend::socket::{
    check_protocol_version, command_args, decode_response, frame_length, frame_payload,
    query_args, response_output, socket_path_for, SOCKET_PROTOCOL_VERSION,
};
use aerostage::aerospace::types::{AerospaceApp, AerospaceLayout, AerospaceWindow, AerospaceWorkspace};

const PROTOCOL_VERSION: u32 = 1;

fn response_payload(exit_code: i32, stdout: &str, stderr: &str) -> Vec<u8> {
    format!(
        "{{\"exitCode\":{},\"stdout\":{},\"stderr\":{},\"serverVersionAndHash\":\"test-0\"}}",
        exit_code,
        serde_json::to_string(stdout).unwrap(),
        serde_json::to_string(stderr).unwrap()
    )
    .into_bytes()
}

fn answer(command: &AerospaceCommand, payload: Vec<u8>) -> Result<String, AerospaceBackendError> {
    let response = decode_response(command, payload)?;
    response_output(command, response)
}

fn query_request(command: &AerospaceCommand, args: &Vec<String>) -> Vec<String> {
    query_args(command, &arg_refs(args))
}

fn command_request(command: &AerospaceCommand, args: &Vec<String>) -> Vec<String> {
    command_args(command, &arg_refs(args))
}

#[test]
fn handshake_succeeds_when_protocol_versions_match() {
    assert_eq!(SOCKET_PROTOCOL_VERSION, PROTOCOL_VERSION);
    assert!(check_protocol_version(PROTOCOL_VERSION).is_ok());
}

#[test]
fn handshake_fails_on_incompatible_server_version() {
    match check_protocol_version(99) {
        Err(AerospaceBackendError::IncompatibleVersion { client_version, server_version }) => {
            assert_eq!(client_version, PROTOCOL_VERSION);
            assert_eq!(server_version, 99);
        }
        other => panic!("expected IncompatibleVersion, got {other:?}"),
    }
}

#[test]
fn list_apps_sends_json_query_and_parses_stdout() {
    let request = query_request(&AerospaceCommand::ListApps, &list_apps_arguments());
    assert_eq!(
        request,
        ["list-apps", "--json", "--format", "%{app-bundle-id} %{app-name} %{app-pid}"]
    );

    let stdout = answer(
        &AerospaceCommand::ListApps,
        response_payload(
            0,
            r#"[{
                "app-name": "TestApp",
                "app-bundle-id": "com.test.app",
                "app-pid": 42
            }]"#,
            "",
        ),
    )
    .expect("should read the response");
    let apps = decode_query_output::<AerospaceApp>(&AerospaceCommand::ListApps, Ok(stdout))
        .expect("should parse listed apps");

    assert_eq!(apps.len(), 1);
    assert_eq!(apps[0].app_name, "TestApp");
    assert_eq!(apps[0].app_bundle_id, "com.test.app");
    assert_eq!(apps[0].app_pid, 42);
}

#[test]
fn list_workspaces_sends_all_and_format_flags() {
    let request = query_request(&AerospaceCommand::ListWorkspaces, &list_workspaces_arguments());
    assert_eq!(
        request,
        [
            "list-workspaces",
            "--json",
            "--all",
            "--format",
            "%{workspace} %{workspace-root-container-layout}"
        ]
    );

    let stdout = answer(
        &AerospaceCommand::ListWorkspaces,
        response_payload(
            0,
            r#"[{
                "workspace": "1",
                "workspace-root-container-layout": "h_tiles"
            }]"#,
            "",
        ),
    )
    .expect("should read the response");
    let workspaces = decode_query_output::<AerospaceWorkspace>(&AerospaceCommand::ListWorkspaces, Ok(stdout))
        .expect("should parse listed workspaces");

    assert_eq!(workspaces.len(), 1);
    assert_eq!(workspaces[0].workspace, "1");
    assert_eq!(workspaces[0].layout, AerospaceLayout::HTiles);
}

#[test]
fn list_windows_parses_optional_fields() {
    let request = query_request(&AerospaceCommand::ListWindows, &list_windows_arguments());
    assert_eq!(
        request,
        [
            "list-windows",
            "--json",
            "--all",
            "--format",
            "%{window-id} %{window-title} %{app-name} %{app-bundle-id} %{workspace}"
        ]
    );

    let stdout = answer(
        &AerospaceCommand::ListWindows,
        response_payload(
            0,
            r#"[{
                "window-id": 7,
                "window-title": "TestWindow",
                "app-name": "TestApp",
                "app-bundle-id": "com.example.test",
                "workspace": "main"
            }]"#,
            "",
        ),
    )
    .expect("should read the response");
    let windows = decode_query_output::<AerospaceWindow>(&AerospaceCommand::ListWindows, Ok(stdout))
        .expect("should parse listed windows");

    assert_eq!(windows.len(), 1);
    assert_eq!(windows[0].window_id, 7);
    assert_eq!(windows[0].window_title, "TestWindow");
    assert_eq!(windows[0].app_name, "TestApp");
    assert_eq!(windows[0].app_bundle_id, "com.example.test");
    assert_eq!(windows[0].workspace, "main");
}

#[test]
fn execute_command_maps_nonzero_exit_to_command_failed() {
    let error = answer(
        &AerospaceCommand::FlattenWorkspaceTree,
        response_payload(1, "", "workspace does not exist"),
    )
    .expect_err("nonzero exit should fail");

    match &error {
        AerospaceBackendError::CommandFailed { command, exit_code, stderr } => {
            assert_eq!(command, "flatten-workspace-tree");
            assert_eq!(*exit_code, 1);
            assert_eq!(stderr, "workspace does not exist");
        }
        other => panic!("expected CommandFailed, got {other:?}"),
    }
    let message = error.message();
    assert!(message.contains("flatten-workspace-tree"), "unexpected error: {message}");
    assert!(message.contains("workspace does not exist"), "unexpected error: {message}");
    assert_eq!(
        message,
        "AeroSpace command `flatten-workspace-tree` failed (exit 1): workspace does not exist"
    );
}

#[test]
fn query_command_fails_on_invalid_stdout_json() {
    let stdout = answer(&AerospaceCommand::ListApps, response_payload(0, "not-json", ""))
        .expect("the response itself is well formed");
    let error = decode_query_output::<AerospaceApp>(&AerospaceCommand::ListApps, Ok(stdout))
        .expect_err("invalid stdout JSON should fail");

    let message = error.message();
    assert!(message.contains("list-apps"), "unexpected error: {message}");
    assert!(matches!(error, AerospaceBackendError::Deserialize { .. }));
}

#[test]
fn read_response_fails_on_invalid_utf8_payload() {
    let error = decode_response(&AerospaceCommand::ListApps, vec![0xff, 0xfe, 0xfd])
        .expect_err("invalid UTF-8 should fail");

    assert!(matches!(error, AerospaceBackendError::InvalidUtf8));
    assert_eq!(error.message(), "AeroSpace response is not valid UTF-8");
}

#[test]
fn response_that_is_not_json_fails_to_deserialize() {
    let error = decode_response(&AerospaceCommand::ListApps, b"{\"exitCode\": 0".to_vec())
        .expect_err("a truncated response should fail");

    match error {
        AerospaceBackendError::Deserialize { command } => assert_eq!(command, "list-apps"),
        other => panic!("expected Deserialize, got {other:?}"),
    }
}

#[test]
fn move_node_to_workspace_sends_window_and_workspace_args() {
    let request = command_request(&AerospaceCommand::MoveNodeToWorkspace, &move_node_arguments("main", 42));
    assert_eq!(request, ["move-node-to-workspace", "--window-id", "42", "--", "main"]);

    let stdout = answer(&AerospaceCommand::MoveNodeToWorkspace, response_payload(0, "", ""))
        .expect("move should succeed");
    assert_eq!(stdout, "");
}

#[test]
fn layout_sends_workspace_and_root_layout() {
    let request = command_request(&AerospaceCommand::ChangeLayout, &layout_arguments("coding", &AerospaceLayout::VAccordion));
    assert_eq!(request, ["layout", "--workspace", "coding", "--root", "v_accordion"]);
}

#[test]
fn flatten_workspace_tree_sends_workspace_arg() {
    let request = command_request(&AerospaceCommand::FlattenWorkspaceTree, &flatten_arguments("1"));
    assert_eq!(request, ["flatten-workspace-tree", "--workspace", "1"]);
}

#[test]
fn frames_carry_their_length_least_significant_byte_first() {
    let payload = vec![7u8; 258];
    let frame = frame_payload(&payload);

    assert_eq!(frame.len(), 262);
    assert_eq!(&frame[..4], &[2, 1, 0, 0]);
    assert_eq!(&frame[4..], payload.as_slice());
    assert_eq!(frame_length(&frame[..4]), 258);
}

#[test]
fn frame_length_reads_all_four_bytes() {
    assert_eq!(frame_length(&[0x78, 0x56, 0x34, 0x12]), 0x1234_5678);
    assert_eq!(frame_length(&[0xff, 0xff, 0xff, 0xff]), u32::MAX);
    assert_eq!(frame_payload(&[]), vec![0, 0, 0, 0]);
}

#[test]
fn socket_path_names_the_user() {
    assert_eq!(socket_path_for("alice"), "/tmp/bobko.aerospace-alice.sock");
}

#[test]
fn failure_messages_render_negative_exit_codes_and_versions() {
    let failed = AerospaceBackendError::CommandFailed {
        command: "layout".to_string(),
        exit_code: -12,
        stderr: "boom".to_string(),
    };
    assert_eq!(failed.message(), "AeroSpace command `layout` failed (exit -12): boom");

    let version = check_protocol_version(1024).unwrap_err();
    assert_eq!(version.message(), "AeroSpace protocol version mismatch (client: 1, server: 1024)");
}
