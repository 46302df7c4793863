use aerostage::aerospace::types::AerospaceWindow;
use aerostage::restore::rule::WindowResolverRule;
use aerostage::restore::rules::workspace::TargetWorkspaceResolverRule;
use aerostage::restore::types::{ResolveTarget, ResolvedWindowMatch};
use aerostage::stage::{StageWindow, StageWorkspace};

fn create_target(app_name: &str, bundle_id: &str, workspace_name: &str) -> (StageWindow, StageWorkspace) {
    let window = StageWindow::dummy().with_app(app_name).with_bundle_id(bundle_id);
    let workspace = StageWorkspace::dummy().with_name(workspace_name);
    (window, workspace)
}

#[test]
fn test_single_match_on_target_workspace_returns_resolved_window() {
    let (target_window, target_workspace) = create_target("Slack", "com.tinyspeck.slackmacgap", "work");
    let target = ResolveTarget { target_window: &target_window, target_workspace: &target_workspace };

    let windows = vec![
        AerospaceWindow::dummy()
            .with_window_id(100)
            .with_app_name("Slack")
            .with_bundle_id("com.tinyspeck.slackmacgap")
            .with_workspace("work"),
        AerospaceWindow::dummy()
            .with_window_id(101)
            .with_app_name("Slack")
            .with_bundle_id("com.tinyspeck.slackmacgap")
            .with_workspace("personal"),
    ];

    let resolver = TargetWorkspaceResolverRule {};
    let result = resolver.match_window(&windows, &target);

    assert_eq!(result, Some(ResolvedWindowMatch { target_workspace: "work".to_string(), window_id: 100 }));
}

#[test]
fn test_multiple_matches_on_target_workspace_returns_none() {
    let (target_window, target_workspace) = create_target("Terminal", "com.apple.Terminal", "dev");
    let target = ResolveTarget { target_window: &target_window, target_workspace: &target_workspace };

    let windows = vec![
        AerospaceWindow::dummy()
            .with_window_id(1)
            .with_app_name("Terminal")
            .with_bundle_id("com.apple.Terminal")
            .with_workspace("dev"),
        AerospaceWindow::dummy()
            .with_window_id(2)
            .with_app_name("Terminal")
            .with_bundle_id("com.apple.Terminal")
            .with_workspace("dev"),
    ];

    let resolver = TargetWorkspaceResolverRule {};
    let result = resolver.match_window(&windows, &target);

    assert_eq!(result, None);
}

#[test]
fn test_app_matches_but_on_wrong_workspace_returns_none() {
    let (target_window, target_workspace) = create_target("Browser", "com.browser.app", "workspace-1");
    let target = ResolveTarget { target_window: &target_window, target_workspace: &target_workspace };

    let windows = vec![AerospaceWindow::dummy()
        .with_window_id(50)
        .with_app_name("Browser")
        .with_bundle_id("com.browser.app")
        .with_workspace("workspace-2")];

    let resolver = TargetWorkspaceResolverRule {};
    let result = resolver.match_window(&windows, &target);

    assert_eq!(result, None);
}

#[test]
fn test_correct_workspace_but_different_app_returns_none() {
    let (target_window, target_workspace) = create_target("Notes", "com.apple.Notes", "main");
    let target = ResolveTarget { target_window: &target_window, target_workspace: &target_workspace };

    let windows = vec![AerospaceWindow::dummy()
        .with_window_id(77)
        .with_app_name("Calculator")
        .with_bundle_id("com.apple.calculator")
        .with_workspace("main")];

    let resolver = TargetWorkspaceResolverRule {};
    let result = resolver.match_window(&windows, &target);

    assert_eq!(result, None);
}

#[test]
fn test_empty_windows_returns_none() {
    let (target_window, target_workspace) = create_target("App", "com.app", "1");
    let target = ResolveTarget { target_window: &target_window, target_workspace: &target_workspace };

    let resolver = TargetWorkspaceResolverRule {};
    let result = resolver.match_window(&[], &target);

    assert_eq!(result, None);
}
