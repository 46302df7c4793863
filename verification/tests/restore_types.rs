use aerostage::aerospace::types::AerospaceWindow;
use aerostage::restore::types::ResolveTarget;
use aerostage::stage::{StageWindow, StageWorkspace};

fn target<'a>(window: &'a StageWindow, workspace: &'a StageWorkspace) -> ResolveTarget<'a> {
    ResolveTarget {
        target_window: window,
        target_workspace: workspace,
    }
}

#[test]
fn matches_when_both_app_and_bundle_id_agree() {
    let window = StageWindow::dummy()
        .with_app("Safari")
        .with_bundle_id("com.apple.Safari");
    let workspace = StageWorkspace::dummy();
    let live = AerospaceWindow::dummy()
        .with_app_name("Safari")
        .with_bundle_id("com.apple.Safari");

    assert!(target(&window, &workspace).matches_window_app(&live));
}

#[test]
fn rejects_when_app_matches_but_bundle_id_does_not() {
    let window = StageWindow::dummy()
        .with_app("Code")
        .with_bundle_id("com.microsoft.VSCode");
    let workspace = StageWorkspace::dummy();
    let live = AerospaceWindow::dummy()
        .with_app_name("Code")
        .with_bundle_id("com.visualstudio.code");

    assert!(!target(&window, &workspace).matches_window_app(&live));
}

#[test]
fn matches_on_app_alone_when_bundle_id_is_absent() {
    let window = StageWindow {
        app: Some("Safari".into()),
        title: Some("Inbox".into()),
        bundle_id: None,
    };
    let workspace = StageWorkspace::dummy();
    let live = AerospaceWindow::dummy()
        .with_app_name("Safari")
        .with_bundle_id("com.other.Safari");

    assert!(target(&window, &workspace).matches_window_app(&live));
}

#[test]
fn title_only_target_matches_any_app() {
    let window = StageWindow {
        app: None,
        title: Some("Inbox".into()),
        bundle_id: None,
    };
    let workspace = StageWorkspace::dummy();
    let live = AerospaceWindow::dummy().with_app_name("Mail");

    assert!(target(&window, &workspace).matches_window_app(&live));
}

#[test]
fn entry_fields_are_trimmed_before_comparing() {
    let window = StageWindow {
        app: Some("  Safari\t".into()),
        title: None,
        bundle_id: Some(" com.apple.Safari ".into()),
    };
    let workspace = StageWorkspace::dummy();
    let live = AerospaceWindow::dummy()
        .with_app_name("Safari")
        .with_bundle_id("com.apple.Safari");

    assert!(target(&window, &workspace).matches_window_app(&live));
}

#[test]
fn blank_entry_fields_count_as_absent() {
    let window = StageWindow {
        app: Some("   ".into()),
        title: None,
        bundle_id: Some("".into()),
    };
    let workspace = StageWorkspace::dummy();
    let live = AerospaceWindow::dummy().with_app_name("Anything");

    assert!(target(&window, &workspace).matches_window_app(&live));
}
