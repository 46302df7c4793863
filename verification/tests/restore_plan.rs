use aerostage::aerospace::types::{AerospaceLayout, AerospaceWindow};
use aerostage::restore::resolution::WindowResolution;
use aerostage::restore::restore::{unrestored_line, RestoreAction, RestorePlan};
use aerostage::restore::types::ResolvedWindowMatch;
use aerostage::stage::{Stage, StageWindow, StageWorkspace, StageWorkspaceLayout};

#[test]
fn skips_windows_already_on_the_target_workspace() {
    let workspaces = Vec::new();

    let live_windows = vec![
        AerospaceWindow::dummy().with_window_id(1).with_workspace("1"),
        AerospaceWindow::dummy().with_window_id(2).with_workspace("1"),
    ];
    let resolution = WindowResolution {
        resolved_windows: vec![
            ResolvedWindowMatch { target_workspace: "1".into(), window_id: 1 },
            ResolvedWindowMatch { target_workspace: "2".into(), window_id: 2 },
        ],
        pending_targets: Vec::new(),
        unresolved_windows: Vec::new(),
    };

    let plan = RestorePlan::resolve(&workspaces, &resolution, &live_windows);

    assert_eq!(plan.plan.len(), 1);
    match &plan.plan[0] {
        RestoreAction::MoveToWorkspace { workspace, target_window } => {
            assert_eq!(workspace, "2");
            assert_eq!(*target_window, 2);
        }
        _ => panic!("Expected MoveToWorkspace action, but got ChangeLayout"),
    }
}

#[test]
fn adds_layout_change_for_workspace() {
    let workspaces = vec![StageWorkspace {
        name: "1".to_string(),
        layout: Some(StageWorkspaceLayout::HAccordion),
        windows: Vec::new(),
    }];

    let live_windows = Vec::new();
    let resolution = WindowResolution {
        resolved_windows: Vec::new(),
        pending_targets: Vec::new(),
        unresolved_windows: Vec::new(),
    };

    let plan = RestorePlan::resolve(&workspaces, &resolution, &live_windows);

    assert_eq!(plan.plan.len(), 2);
    match &plan.plan[0] {
        RestoreAction::FlattenWorkspace { workspace } => {
            assert_eq!(workspace, "1");
        }
        _ => panic!("Expected MoveToWorkspace action, but got ChangeLayout"),
    }
    match &plan.plan[1] {
        RestoreAction::ChangeLayout { workspace, target_layout } => {
            assert_eq!(workspace, "1");
            assert_eq!(*target_layout, AerospaceLayout::HAccordion);
        }
        _ => panic!("Expected MoveToWorkspace action, but got ChangeLayout"),
    }
}

#[test]
fn windows_that_are_not_live_get_no_move() {
    let workspaces: Vec<StageWorkspace> = Vec::new();
    let live_windows = vec![AerospaceWindow::dummy().with_window_id(1).with_workspace("3")];
    let resolution = WindowResolution {
        resolved_windows: vec![
            ResolvedWindowMatch { target_workspace: "1".into(), window_id: 1 },
            ResolvedWindowMatch { target_workspace: "2".into(), window_id: 5 },
        ],
        pending_targets: Vec::new(),
        unresolved_windows: Vec::new(),
    };

    let plan = RestorePlan::resolve(&workspaces, &resolution, &live_windows);
    assert_eq!(plan.plan.len(), 1);
    assert!(matches!(&plan.plan[0], RestoreAction::MoveToWorkspace { workspace, target_window: 1 } if workspace == "1"));
}

#[test]
fn unrestored_line_shows_dashes_for_missing_fields() {
    let window = StageWindow { app: Some("Safari".into()), title: None, bundle_id: None };
    assert_eq!(unrestored_line(&window), "Could not restore window - | Safari | -");
    let full = StageWindow::dummy();
    assert_eq!(unrestored_line(&full), "Could not restore window Test Title | Test App | com.example.test");
}

#[test]
fn restore_moves_only_open_windows_to_stage_workspaces() {
    let stage = Stage {
        name: Some("work".to_string()),
        description: None,
        workspaces: vec![StageWorkspace {
            name: "code".to_string(),
            windows: vec![StageWindow::dummy().with_app("Code").with_bundle_id("com.microsoft.vscode").with_title(Some("main.rs"))],
            layout: Some(StageWorkspaceLayout::VTiles),
        }],
        default_workspace: Some("spare".to_string()),
    };
    let live = vec![
        AerospaceWindow::dummy()
            .with_window_id(10)
            .with_app_name("Code")
            .with_bundle_id("com.microsoft.vscode")
            .with_window_title("main.rs")
            .with_workspace("1"),
        AerospaceWindow::dummy()
            .with_window_id(11)
            .with_app_name("Mail")
            .with_bundle_id("com.apple.mail")
            .with_window_title("Inbox")
            .with_workspace("2"),
        AerospaceWindow::dummy()
            .with_window_id(12)
            .with_app_name("Notes")
            .with_bundle_id("com.apple.notes")
            .with_window_title("Todo")
            .with_workspace("spare"),
    ];

    let resolution = WindowResolution::resolve(&stage, &live);
    let plan = RestorePlan::resolve(&stage.workspaces, &resolution, &live);

    let mut moves = Vec::new();
    for action in &plan.plan {
        match action {
            RestoreAction::MoveToWorkspace { workspace, target_window } => {
                let window = live.iter().find(|w| w.window_id == *target_window).expect("only live windows move");
                assert_ne!(&window.workspace, workspace);
                assert!(workspace == "code" || workspace == "spare");
                moves.push((*target_window, workspace.clone()));
            }
            RestoreAction::FlattenWorkspace { workspace } => assert_eq!(workspace, "code"),
            RestoreAction::ChangeLayout { workspace, target_layout } => {
                assert_eq!(workspace, "code");
                assert_eq!(*target_layout, AerospaceLayout::VTiles);
            }
        }
    }
    assert_eq!(moves, vec![(10, "code".to_string()), (11, "spare".to_string())]);
    assert_eq!(plan.plan.len(), 4);
}
