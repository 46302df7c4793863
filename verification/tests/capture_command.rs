use aerostage::capture::command::{parse_workspace_list, resolve_captured_stage_name, CaptureCommandHandler};

#[test]
fn parse_workspace_list_trims_and_drops_empty_entries() {
    assert_eq!(parse_workspace_list("1, 2, 3"), vec!["1", "2", "3"]);
    assert_eq!(parse_workspace_list("1,,2,"), vec!["1", "2"]);
}

#[test]
fn resolve_captured_stage_name_prefers_explicit_name() {
    assert_eq!(resolve_captured_stage_name(Some("focus"), Some("work")), Some("focus"));
}

#[test]
fn resolve_captured_stage_name_falls_back_to_output() {
    assert_eq!(resolve_captured_stage_name(None, Some("work")), Some("work"));
}

#[test]
fn resolve_captured_stage_name_is_none_when_both_missing() {
    assert_eq!(resolve_captured_stage_name(None, None), None);
}

#[test]
fn parse_workspace_list_of_blanks_is_empty() {
    assert!(parse_workspace_list("").is_empty());
    assert!(parse_workspace_list(" , ,").is_empty());
    assert_eq!(parse_workspace_list(" main "), vec!["main"]);
}

#[test]
fn stdout_and_output_file_conflict() {
    let handler = CaptureCommandHandler {
        output: Some("work.toml".into()),
        name: None,
        workspaces: None,
        default_workspace: None,
        stdout_output: true,
    };
    assert_eq!(
        handler.output_file().unwrap_err(),
        "--stdout output cannot be used when output is specified"
    );
    let handler = CaptureCommandHandler { stdout_output: false, ..handler };
    assert_eq!(handler.output_file().unwrap(), Some("work.toml"));
}
