//! Stages: named snapshots of which windows belong on which workspace.

pub mod commands;
pub mod repository;

use vstd::prelude::*;
use vstd::string::StringExecFns;

verus! {

/// A stage: workspaces with the windows that belong on them, and an
/// optional workspace for the windows that no entry claims.
#[derive(Debug, Clone)]
pub struct Stage {
    pub name: Option<String>,
    pub description: Option<String>,
    pub workspaces: Vec<StageWorkspace>,
    pub default_workspace: Option<String>,
}

/// The layout a stage asks for on a workspace.
#[derive(Debug, Clone, Copy, PartialEq, Eq, Structural)]
pub enum StageWorkspaceLayout {
    HTiles,
    VTiles,
    HAccordion,
    VAccordion,
}

/// A workspace of a stage and the windows that belong on it.
#[derive(Debug, Clone)]
pub struct StageWorkspace {
    pub name: String,
    pub windows: Vec<StageWindow>,
    pub layout: Option<StageWorkspaceLayout>,
}

/// A window entry of a stage; any of its fields may be left out.
#[derive(Debug, Clone)]
pub struct StageWindow {
    pub app: Option<String>,
    pub title: Option<String>,
    pub bundle_id: Option<String>,
}

/// The contents of a [`StageWindow`].
pub struct StageWindowView {
    pub app: Option<Seq<char>>,
    pub title: Option<Seq<char>>,
    pub bundle_id: Option<Seq<char>>,
}

impl View for StageWindow {
    type V = StageWindowView;

    open spec fn view(&self) -> StageWindowView {
        StageWindowView {
            app: self.app.deep_view(),
            title: self.title.deep_view(),
            bundle_id: self.bundle_id.deep_view(),
        }
    }
}

impl DeepView for StageWindow {
    type V = StageWindowView;

    open spec fn deep_view(&self) -> StageWindowView {
        self@
    }
}

/// The contents of a [`StageWorkspace`].
pub struct StageWorkspaceView {
    pub name: Seq<char>,
    pub windows: Seq<StageWindowView>,
    pub layout: Option<StageWorkspaceLayout>,
}

impl View for StageWorkspace {
    type V = StageWorkspaceView;

    open spec fn view(&self) -> StageWorkspaceView {
        StageWorkspaceView {
            name: self.name@,
            windows: self.windows.deep_view(),
            layout: self.layout,
        }
    }
}

impl DeepView for StageWorkspace {
    type V = StageWorkspaceView;

    open spec fn deep_view(&self) -> StageWorkspaceView {
        self@
    }
}

/// The contents of a [`Stage`].
pub struct StageView {
    pub name: Option<Seq<char>>,
    pub description: Option<Seq<char>>,
    pub workspaces: Seq<StageWorkspaceView>,
    pub default_workspace: Option<Seq<char>>,
}

impl View for Stage {
    type V = StageView;

    open spec fn view(&self) -> StageView {
        StageView {
            name: self.name.deep_view(),
            description: self.description.deep_view(),
            workspaces: self.workspaces.deep_view(),
            default_workspace: self.default_workspace.deep_view(),
        }
    }
}

impl DeepView for Stage {
    type V = StageView;

    open spec fn deep_view(&self) -> StageView {
        self@
    }
}

impl StageWindow {
    /// A sample entry: the application `Test App` (`com.example.test`),
    /// titled `Test Title`.
    pub fn dummy() -> (r: Self)
        ensures
            r@ == (StageWindowView {
                app: Some("Test App"@),
                title: Some("Test Title"@),
                bundle_id: Some("com.example.test"@),
            }),
    {
        StageWindow {
            app: Some(String::from_str("Test App")),
            title: Some(String::from_str("Test Title")),
            bundle_id: Some(String::from_str("com.example.test")),
        }
    }

    /// The entry with another bundle id.
    pub fn with_bundle_id(self, bundle_id: &str) -> (r: Self)
        ensures
            r@ == (StageWindowView { bundle_id: Some(bundle_id@), ..self@ }),
    {
        StageWindow { bundle_id: Some(String::from_str(bundle_id)), ..self }
    }

    /// The entry with another application.
    pub fn with_app(self, app: &str) -> (r: Self)
        ensures
            r@ == (StageWindowView { app: Some(app@), ..self@ }),
    {
        StageWindow { app: Some(String::from_str(app)), ..self }
    }

    /// The entry with another title, or none.
    pub fn with_title(self, title: Option<&str>) -> (r: Self)
        ensures
            r@ == (StageWindowView {
                title: match title {
                    Some(t) => Some(t@),
                    None => None,
                },
                ..self@
            }),
    {
        let title = match title {
            Some(t) => Some(String::from_str(t)),
            None => None,
        };
        StageWindow { title, ..self }
    }
}

impl StageWorkspace {
    /// A sample workspace: `1`, without entries or layout.
    pub fn dummy() -> (r: Self)
        ensures
            r@ == (StageWorkspaceView { name: "1"@, windows: Seq::empty(), layout: None }),
    {
        let windows: Vec<StageWindow> = Vec::new();
        assert(windows.deep_view() =~= Seq::<StageWindowView>::empty());
        StageWorkspace { name: String::from_str("1"), windows, layout: None }
    }

    /// The workspace under another name.
    pub fn with_name(self, name: &str) -> (r: Self)
        ensures
            r@ == (StageWorkspaceView { name: name@, ..self@ }),
    {
        StageWorkspace { name: String::from_str(name), ..self }
    }
}

} // verus!
