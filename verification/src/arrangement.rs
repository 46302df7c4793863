//! Arrangements: named sets of workspaces with the windows that belong on
//! them, where every window entry names its application and bundle id.

use vstd::prelude::*;
use vstd::string::StringExecFns;

verus! {

/// An arrangement: a name, a description, and its workspaces.
#[derive(Debug, Clone)]
pub struct Arrangement {
    pub name: String,
    pub description: Option<String>,
    pub workspaces: Vec<ArrangementWorkspace>,
}

/// A workspace of an arrangement and its windows.
#[derive(Debug, Clone)]
pub struct ArrangementWorkspace {
    pub name: String,
    pub windows: Vec<ArrangementWindow>,
}

/// A window of an arrangement: its application, bundle id and, optionally,
/// title.
#[derive(Debug, Clone)]
pub struct ArrangementWindow {
    pub app: String,
    pub title: Option<String>,
    pub bundle_id: String,
}

/// The contents of an [`ArrangementWindow`].
pub struct ArrangementWindowView {
    pub app: Seq<char>,
    pub title: Option<Seq<char>>,
    pub bundle_id: Seq<char>,
}

impl View for ArrangementWindow {
    type V = ArrangementWindowView;

    open spec fn view(&self) -> ArrangementWindowView {
        ArrangementWindowView { app: self.app@, title: self.title.deep_view(), bundle_id: self.bundle_id@ }
    }
}

impl DeepView for ArrangementWindow {
    type V = ArrangementWindowView;

    open spec fn deep_view(&self) -> ArrangementWindowView {
        self@
    }
}

/// The contents of an [`ArrangementWorkspace`].
pub struct ArrangementWorkspaceView {
    pub name: Seq<char>,
    pub windows: Seq<ArrangementWindowView>,
}

impl View for ArrangementWorkspace {
    type V = ArrangementWorkspaceView;

    open spec fn view(&self) -> ArrangementWorkspaceView {
        ArrangementWorkspaceView { name: self.name@, windows: self.windows.deep_view() }
    }
}

impl DeepView for ArrangementWorkspace {
    type V = ArrangementWorkspaceView;

    open spec fn deep_view(&self) -> ArrangementWorkspaceView {
        self@
    }
}

impl ArrangementWindow {
    /// A sample window entry: `Test App` (`com.example.test`), titled
    /// `Test Title`.
    pub fn dummy() -> (r: Self)
        ensures
            r@ == (ArrangementWindowView { app: "Test App"@, title: Some("Test Title"@), bundle_id: "com.example.test"@ }),
    {
        ArrangementWindow {
            app: String::from_str("Test App"),
            title: Some(String::from_str("Test Title")),
            bundle_id: String::from_str("com.example.test"),
        }
    }

    /// The entry with another bundle id.
    pub fn with_bundle_id(self, bundle_id: &str) -> (r: Self)
        ensures
            r@ == (ArrangementWindowView { bundle_id: bundle_id@, ..self@ }),
    {
        ArrangementWindow { bundle_id: String::from_str(bundle_id), ..self }
    }

    /// The entry with another application.
    pub fn with_app(self, app: &str) -> (r: Self)
        ensures
            r@ == (ArrangementWindowView { app: app@, ..self@ }),
    {
        ArrangementWindow { app: String::from_str(app), ..self }
    }

    /// The entry with another title, or none.
    pub fn with_title(self, title: Option<&str>) -> (r: Self)
        ensures
            r@ == (ArrangementWindowView {
                title: match title {
                    Some(t) => Some(t@),
                    None => None,
                },
                ..self@
            }),
    {
        let title = match title {
            Some(t) => Some(String::from_str(t)),
            None => None,
        };
        ArrangementWindow { title, ..self }
    }
}

impl ArrangementWorkspace {
    /// A sample workspace: `1`, without windows.
    pub fn dummy() -> (r: Self)
        ensures
            r@ == (ArrangementWorkspaceView { name: "1"@, windows: Seq::empty() }),
    {
        let windows: Vec<ArrangementWindow> = Vec::new();
        assert(windows.deep_view() =~= Seq::<ArrangementWindowView>::empty());
        ArrangementWorkspace { name: String::from_str("1"), windows }
    }

    /// The workspace under another name.
    pub fn with_name(self, name: &str) -> (r: Self)
        ensures
            r@ == (ArrangementWorkspaceView { name: name@, ..self@ }),
    {
        ArrangementWorkspace { name: String::from_str(name), ..self }
    }
}

impl Arrangement {
    /// The arrangements read from the directory `dir`, where there is at
    /// least one; a directory without arrangements is refused with a message
    /// that names it.
    pub fn found_in(dir: &str, arrangements: Vec<Arrangement>) -> (r: Result<Vec<Arrangement>, String>)
        ensures
            match r {
                Ok(found) => arrangements@.len() > 0 && found@ == arrangements@,
                Err(message) => arrangements@.len() == 0
                    && message@ == "No arrangements found in directory '"@ + dir@ + "'"@,
            },
    {
        if arrangements.len() == 0 {
            let mut message = String::from_str("No arrangements found in directory '");
            message.append(dir);
            message.append("'");
            return Err(message);
        }
        Ok(arrangements)
    }
}

} // verus!
