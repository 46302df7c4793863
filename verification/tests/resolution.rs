use aerostage::aerospace::types::AerospaceWindow;
use aerostage::restore::resolution::WindowResolution;
use aerostage::stage::{Stage, StageWindow, StageWorkspace};

fn stage(windows: Vec<(StageWorkspace, Vec<StageWindow>)>, default: Option<&str>) -> Stage {
    Stage {
        name: None,
        description: None,
        workspaces: windows
            .into_iter()
            .map(|(mut workspace, stage_windows)| {
                workspace.windows = stage_windows;
                workspace
            })
            .collect(),
        default_workspace: default.map(str::to_string),
    }
}

#[test]
fn resolution_fallback_moves_windows_the_stage_did_not_claim() {
    let safari = StageWindow::dummy()
        .with_app("Safari")
        .with_bundle_id("com.apple.Safari")
        .with_title(Some("Inbox"));
    let workspace = StageWorkspace::dummy().with_name("1");
    let stage = stage(vec![(workspace, vec![safari])], Some("9"));

    let windows = vec![
        AerospaceWindow::dummy()
            .with_window_id(1)
            .with_app_name("Safari")
            .with_bundle_id("com.apple.Safari")
            .with_window_title("Inbox")
            .with_workspace("2"),
        AerospaceWindow::dummy()
            .with_window_id(2)
            .with_app_name("Slack")
            .with_bundle_id("com.tinyspeck.slackmacgap")
            .with_window_title("Team")
            .with_workspace("3"),
    ];

    let resolution = WindowResolution::resolve(&stage, &windows);
    let fallback = resolution
        .resolved_windows
        .iter()
        .find(|matched| matched.window_id == 2)
        .expect("Slack should move to the default workspace");

    assert_eq!(fallback.target_workspace, "9");
    assert!(resolution.pending_targets.is_empty());
}

#[test]
fn resolution_fallback_leaves_windows_that_unmatched_stage_entries_may_own() {
    let safari = StageWindow::dummy()
        .with_app("Safari")
        .with_bundle_id("com.apple.Safari")
        .with_title(Some("Missing Tab"));
    let workspace = StageWorkspace::dummy().with_name("1");
    let stage = stage(vec![(workspace, vec![safari])], Some("9"));

    let windows = vec![
        AerospaceWindow::dummy()
            .with_window_id(1)
            .with_app_name("Safari")
            .with_bundle_id("com.apple.Safari")
            .with_window_title("Tab A")
            .with_workspace("2"),
        AerospaceWindow::dummy()
            .with_window_id(2)
            .with_app_name("Safari")
            .with_bundle_id("com.apple.Safari")
            .with_window_title("Tab B")
            .with_workspace("3"),
        AerospaceWindow::dummy()
            .with_window_id(3)
            .with_app_name("Slack")
            .with_bundle_id("com.tinyspeck.slackmacgap")
            .with_window_title("Team")
            .with_workspace("4"),
    ];

    let resolution = WindowResolution::resolve(&stage, &windows);

    assert!(!resolution.pending_targets.is_empty());
    assert!(resolution
        .resolved_windows
        .iter()
        .any(|matched| matched.window_id == 3 && matched.target_workspace == "9"));
    assert!(!resolution
        .resolved_windows
        .iter()
        .any(|matched| matched.window_id == 1 || matched.window_id == 2));
}

#[test]
fn every_live_window_is_placed_once() {
    let stage = stage(
        vec![
            (
                StageWorkspace::dummy().with_name("1"),
                vec![StageWindow::dummy().with_app("Safari").with_bundle_id("com.apple.Safari").with_title(Some("Inbox"))],
            ),
            (
                StageWorkspace::dummy().with_name("2"),
                vec![StageWindow::dummy().with_app("Code").with_bundle_id("com.microsoft.VSCode").with_title(None)],
            ),
        ],
        Some("9"),
    );
    let windows = vec![
        AerospaceWindow::dummy().with_window_id(1).with_app_name("Safari").with_bundle_id("com.apple.Safari").with_window_title("Inbox"),
        AerospaceWindow::dummy().with_window_id(2).with_app_name("Safari").with_bundle_id("com.apple.Safari").with_window_title("Other"),
        AerospaceWindow::dummy().with_window_id(3).with_app_name("Code").with_bundle_id("com.microsoft.VSCode").with_window_title("x"),
        AerospaceWindow::dummy().with_window_id(4).with_app_name("Slack").with_bundle_id("com.tinyspeck.slackmacgap").with_window_title("t"),
    ];

    let resolution = WindowResolution::resolve(&stage, &windows);
    let mut ids: Vec<u32> = resolution.resolved_windows.iter().map(|m| m.window_id).collect();
    ids.extend(resolution.unresolved_windows.iter().map(|w| w.window_id));
    ids.sort();
    assert_eq!(ids, vec![1, 2, 3, 4]);
    assert!(resolution.pending_targets.is_empty());
    let targets: Vec<(u32, String)> = resolution
        .resolved_windows
        .iter()
        .map(|m| (m.window_id, m.target_workspace.clone()))
        .collect();
    assert_eq!(targets, vec![(1, "1".to_string()), (3, "2".to_string()), (2, "9".to_string()), (4, "9".to_string())]);
}

#[test]
fn every_stage_entry_is_bound_or_reported() {
    let stage = stage(
        vec![
            (
                StageWorkspace::dummy().with_name("1"),
                vec![
                    StageWindow::dummy().with_app("Safari").with_bundle_id("com.apple.Safari").with_title(Some("Inbox")),
                    StageWindow::dummy().with_app("Zoom").with_bundle_id("us.zoom.xos").with_title(Some("Meeting")),
                ],
            ),
            (
                StageWorkspace::dummy().with_name("2"),
                vec![StageWindow::dummy().with_app("Code").with_bundle_id("com.microsoft.VSCode").with_title(None)],
            ),
        ],
        None,
    );
    let windows = vec![
        AerospaceWindow::dummy().with_window_id(1).with_app_name("Safari").with_bundle_id("com.apple.Safari").with_window_title("Inbox"),
        AerospaceWindow::dummy().with_window_id(3).with_app_name("Code").with_bundle_id("com.microsoft.VSCode").with_window_title("x"),
        AerospaceWindow::dummy().with_window_id(4).with_app_name("Slack").with_bundle_id("com.tinyspeck.slackmacgap").with_window_title("t"),
    ];

    let resolution = WindowResolution::resolve(&stage, &windows);

    assert_eq!(resolution.resolved_windows.len() + resolution.pending_targets.len(), 3);
    assert_eq!(resolution.pending_targets.len(), 1);
    assert_eq!(resolution.pending_targets[0].target_window.app.as_deref(), Some("Zoom"));
    assert_eq!(resolution.pending_targets[0].target_workspace.name, "1");
    let unresolved: Vec<u32> = resolution.unresolved_windows.iter().map(|w| w.window_id).collect();
    assert_eq!(unresolved, vec![4]);
}

#[test]
fn without_a_default_windows_only_go_to_stage_workspaces() {
    let stage = stage(
        vec![(
            StageWorkspace::dummy().with_name("mail"),
            vec![StageWindow::dummy().with_app("Mail").with_bundle_id("com.apple.mail").with_title(None)],
        )],
        None,
    );
    let windows = vec![
        AerospaceWindow::dummy().with_window_id(5).with_app_name("Mail").with_bundle_id("com.apple.mail").with_window_title("Inbox").with_workspace("3"),
        AerospaceWindow::dummy().with_window_id(6).with_app_name("Notes").with_bundle_id("com.apple.notes").with_window_title("Todo").with_workspace("4"),
    ];

    let resolution = WindowResolution::resolve(&stage, &windows);

    assert_eq!(resolution.resolved_windows.len(), 1);
    assert_eq!(resolution.resolved_windows[0].window_id, 5);
    assert_eq!(resolution.resolved_windows[0].target_workspace, "mail");
    assert_eq!(resolution.unresolved_windows.len(), 1);
    assert_eq!(resolution.unresolved_windows[0].window_id, 6);
}
