use aerostage::aerospace::backend::error::AerospaceBackendError;
use aerostage::aerospace::backend::AerospaceBackend;
use aerostage::aerospace::client::Aerospace;
use aerostage::aerospace::types::{
    AerospaceApp, AerospaceLayout, AerospaceWindow, AerospaceWindowId, AerospaceWorkspace,
    AerospaceWorkspaceId,
};
use aerostage::capture::StageCapturer;
use aerostage::restore::resolution::WindowResolution;
use aerostage::restore::restore::RestorePlan;

fn workspace(name: &str) -> AerospaceWorkspace {
    AerospaceWorkspace { workspace: name.to_string(), layout: AerospaceLayout::HTiles }
}

fn window(id: u32, title: &str, app: &str, bundle: &str, ws: &str) -> AerospaceWindow {
    AerospaceWindow {
        window_id: id,
        window_title: title.to_string(),
        app_name: app.to_string(),
        app_bundle_id: bundle.to_string(),
        workspace: ws.to_string(),
    }
}

fn sample_windows() -> Vec<AerospaceWindow> {
    vec![
        window(1, "Inbox", "Mail", "com.apple.mail", "2"),
        window(2, "main.rs", "Code", "com.microsoft.vscode", "1"),
        window(3, "Docs", "Safari", "com.apple.safari", "1"),
    ]
}

#[test]
fn capture_groups_windows_by_listed_workspace() {
    let listed = vec![workspace("1"), workspace("2"), workspace("3")];
    let windows = sample_windows();

    let stage = StageCapturer::<FixedBackend>::build_stage(&listed, &windows, Some("work"), None, Some("9"));

    assert_eq!(stage.name.as_deref(), Some("work"));
    assert_eq!(stage.description, None);
    assert_eq!(stage.default_workspace.as_deref(), Some("9"));
    assert_eq!(stage.workspaces.len(), 2);

    assert_eq!(stage.workspaces[0].name, "1");
    assert!(stage.workspaces[0].layout.is_none());
    let titles: Vec<&str> = stage.workspaces[0].windows.iter().map(|w| w.title.as_deref().unwrap()).collect();
    assert_eq!(titles, vec!["main.rs", "Docs"]);
    assert_eq!(stage.workspaces[0].windows[0].app.as_deref(), Some("Code"));
    assert_eq!(stage.workspaces[0].windows[0].bundle_id.as_deref(), Some("com.microsoft.vscode"));

    assert_eq!(stage.workspaces[1].name, "2");
    assert_eq!(stage.workspaces[1].windows.len(), 1);
    assert_eq!(stage.workspaces[1].windows[0].title.as_deref(), Some("Inbox"));
}

#[test]
fn capture_keeps_only_the_requested_workspaces() {
    let listed = vec![workspace("1"), workspace("2"), workspace("3")];
    let windows = sample_windows();
    let wanted = ["2", "3"];

    let stage = StageCapturer::<FixedBackend>::build_stage(&listed, &windows, None, Some(&wanted), None);

    assert_eq!(stage.name, None);
    assert_eq!(stage.default_workspace, None);
    assert_eq!(stage.workspaces.len(), 1);
    assert_eq!(stage.workspaces[0].name, "2");
}

#[test]
fn capture_records_a_repeated_workspace_once() {
    let listed = vec![workspace("1"), workspace("1")];
    let windows = sample_windows();

    let stage = StageCapturer::<FixedBackend>::build_stage(&listed, &windows, None, None, None);

    assert_eq!(stage.workspaces.len(), 1);
    assert_eq!(stage.workspaces[0].windows.len(), 2);
}

#[test]
fn capture_of_nothing_is_an_empty_stage() {
    let stage = StageCapturer::<FixedBackend>::build_stage(&[], &[], Some("empty"), None, None);

    assert!(stage.workspaces.is_empty());
    assert_eq!(stage.name.as_deref(), Some("empty"));
}

struct FixedBackend {
    workspaces: Vec<AerospaceWorkspace>,
    windows: Vec<AerospaceWindow>,
    fail: bool,
}

impl AerospaceBackend for FixedBackend {
    fn list_apps(&self) -> Result<Vec<AerospaceApp>, AerospaceBackendError> {
        Ok(Vec::new())
    }

    fn list_windows(&self) -> Result<Vec<AerospaceWindow>, AerospaceBackendError> {
        Ok(self.windows.clone())
    }

    fn list_workspaces(&self) -> Result<Vec<AerospaceWorkspace>, AerospaceBackendError> {
        if self.fail {
            Err(AerospaceBackendError::Io { message: "broken pipe".to_string() })
        } else {
            Ok(self.workspaces.clone())
        }
    }

    fn move_node_to_workspace(&self, _workspace: &AerospaceWorkspaceId, _window_id: AerospaceWindowId) -> Result<(), AerospaceBackendError> {
        Ok(())
    }

    fn layout(&self, _workspace: &AerospaceWorkspaceId, _layout: &AerospaceLayout) -> Result<(), AerospaceBackendError> {
        Ok(())
    }

    fn flatten_workspace_tree(&self, _workspace: &AerospaceWorkspaceId) -> Result<(), AerospaceBackendError> {
        Ok(())
    }
}

#[test]
fn capture_asks_aerospace_for_workspaces_and_windows() {
    let aerospace = Aerospace::new(FixedBackend {
        workspaces: vec![workspace("1"), workspace("2")],
        windows: sample_windows(),
        fail: false,
    });

    let stage = StageCapturer::new(&aerospace).capture(Some("desk"), None, None).unwrap();

    assert_eq!(stage.name.as_deref(), Some("desk"));
    let names: Vec<&str> = stage.workspaces.iter().map(|w| w.name.as_str()).collect();
    assert_eq!(names, vec!["1", "2"]);
}

#[test]
fn capture_passes_on_a_listing_failure() {
    let aerospace = Aerospace::new(FixedBackend { workspaces: Vec::new(), windows: Vec::new(), fail: true });

    match StageCapturer::new(&aerospace).capture(None, None, None) {
        Err(AerospaceBackendError::Io { message }) => assert_eq!(message, "broken pipe"),
        other => panic!("expected the listing failure, got {other:?}"),
    }
}

#[test]
fn fresh_capture_restores_in_place() {
    let listed = vec![workspace("1"), workspace("2")];
    let windows = sample_windows();
    let stage = StageCapturer::<FixedBackend>::build_stage(&listed, &windows, Some("work"), None, None);

    let resolution = WindowResolution::resolve(&stage, &windows);

    assert_eq!(resolution.resolved_windows.len(), 3);
    for m in &resolution.resolved_windows {
        let live = windows.iter().find(|w| w.window_id == m.window_id).unwrap();
        assert_eq!(m.target_workspace, live.workspace);
    }
    let plan = RestorePlan::resolve(&stage.workspaces, &resolution, &windows);
    assert!(plan.plan.is_empty());
}
