//! Applications, workspaces, monitors and windows as AeroSpace reports them,
//! and their decoding from AeroSpace's JSON output.

use vstd::prelude::*;
use vstd::string::StringExecFns;

use crate::json::{
    member, member_spec, required_i32, required_i32_spec, required_string, required_string_spec,
    required_unsigned, required_unsigned_spec, string_or_default, string_or_default_spec,
    FromJson, JsonValue,
};

verus! {

pub type AerospaceWindowId = u32;

pub type AerospaceWorkspaceId = String;

/// An application that AeroSpace manages.
#[derive(Debug, Clone)]
pub struct AerospaceApp {
    pub app_bundle_id: String,
    pub app_name: String,
    pub app_pid: u32,
}

/// The root container layout of a workspace.
#[derive(Debug, Clone, PartialEq, Eq, Structural)]
pub enum AerospaceLayout {
    HTiles,
    VTiles,
    HAccordion,
    VAccordion,
}

/// A workspace and the layout of its root container.
#[derive(Debug, Clone)]
pub struct AerospaceWorkspace {
    pub workspace: AerospaceWorkspaceId,
    pub layout: AerospaceLayout,
}

/// A monitor.
#[derive(Debug, Clone)]
pub struct AerospaceMonitor {
    pub monitor_id: i32,
    pub monitor_name: String,
}

/// A window and the workspace it is on.
#[derive(Debug, Clone)]
pub struct AerospaceWindow {
    pub window_id: AerospaceWindowId,
    pub window_title: String,
    pub app_name: String,
    pub app_bundle_id: String,
    pub workspace: AerospaceWorkspaceId,
}

/// The contents of an [`AerospaceWindow`].
pub struct AerospaceWindowView {
    pub window_id: u32,
    pub window_title: Seq<char>,
    pub app_name: Seq<char>,
    pub app_bundle_id: Seq<char>,
    pub workspace: Seq<char>,
}

impl View for AerospaceWindow {
    type V = AerospaceWindowView;

    open spec fn view(&self) -> AerospaceWindowView {
        AerospaceWindowView {
            window_id: self.window_id,
            window_title: self.window_title@,
            app_name: self.app_name@,
            app_bundle_id: self.app_bundle_id@,
            workspace: self.workspace@,
        }
    }
}

impl DeepView for AerospaceWindow {
    type V = AerospaceWindowView;

    open spec fn deep_view(&self) -> AerospaceWindowView {
        self@
    }
}

impl AerospaceWindow {
    /// A sample window: id 0, titled `Test Title`, of the application
    /// `Test App` (`com.example.test`), on workspace `1`.
    pub fn dummy() -> (r: Self)
        ensures
            r@ == (AerospaceWindowView {
                window_id: 0,
                window_title: "Test Title"@,
                app_name: "Test App"@,
                app_bundle_id: "com.example.test"@,
                workspace: "1"@,
            }),
    {
        AerospaceWindow {
            app_bundle_id: String::from_str("com.example.test"),
            app_name: String::from_str("Test App"),
            window_id: 0,
            workspace: String::from_str("1"),
            window_title: String::from_str("Test Title"),
        }
    }

    /// The window with another bundle id.
    pub fn with_bundle_id(self, bundle_id: &str) -> (r: Self)
        ensures
            r@ == (AerospaceWindowView { app_bundle_id: bundle_id@, ..self@ }),
    {
        AerospaceWindow { app_bundle_id: String::from_str(bundle_id), ..self }
    }

    /// The window with another id.
    pub fn with_window_id(self, window_id: u32) -> (r: Self)
        ensures
            r@ == (AerospaceWindowView { window_id, ..self@ }),
    {
        AerospaceWindow { window_id, ..self }
    }

    /// The window with another application name.
    pub fn with_app_name(self, app_name: &str) -> (r: Self)
        ensures
            r@ == (AerospaceWindowView { app_name: app_name@, ..self@ }),
    {
        AerospaceWindow { app_name: String::from_str(app_name), ..self }
    }

    /// The window on another workspace.
    pub fn with_workspace(self, workspace: &str) -> (r: Self)
        ensures
            r@ == (AerospaceWindowView { workspace: workspace@, ..self@ }),
    {
        AerospaceWindow { workspace: String::from_str(workspace), ..self }
    }

    /// The window with another title.
    pub fn with_window_title(self, window_title: &str) -> (r: Self)
        ensures
            r@ == (AerospaceWindowView { window_title: window_title@, ..self@ }),
    {
        AerospaceWindow { window_title: String::from_str(window_title), ..self }
    }

    /// A copy of the window.
    pub fn duplicate(&self) -> (r: AerospaceWindow)
        ensures
            r@ == self@,
    {
        AerospaceWindow {
            window_id: self.window_id,
            window_title: self.window_title.clone(),
            app_name: self.app_name.clone(),
            app_bundle_id: self.app_bundle_id.clone(),
            workspace: self.workspace.clone(),
        }
    }
}

/// The contents of an [`AerospaceApp`].
pub struct AerospaceAppView {
    pub app_bundle_id: Seq<char>,
    pub app_name: Seq<char>,
    pub app_pid: u32,
}

impl View for AerospaceApp {
    type V = AerospaceAppView;

    open spec fn view(&self) -> AerospaceAppView {
        AerospaceAppView {
            app_bundle_id: self.app_bundle_id@,
            app_name: self.app_name@,
            app_pid: self.app_pid,
        }
    }
}

impl DeepView for AerospaceApp {
    type V = AerospaceAppView;

    open spec fn deep_view(&self) -> AerospaceAppView {
        self@
    }
}

/// The contents of an [`AerospaceWorkspace`].
pub struct AerospaceWorkspaceView {
    pub workspace: Seq<char>,
    pub layout: AerospaceLayout,
}

impl View for AerospaceWorkspace {
    type V = AerospaceWorkspaceView;

    open spec fn view(&self) -> AerospaceWorkspaceView {
        AerospaceWorkspaceView { workspace: self.workspace@, layout: self.layout }
    }
}

impl DeepView for AerospaceWorkspace {
    type V = AerospaceWorkspaceView;

    open spec fn deep_view(&self) -> AerospaceWorkspaceView {
        self@
    }
}

/// The contents of an [`AerospaceMonitor`].
pub struct AerospaceMonitorView {
    pub monitor_id: i32,
    pub monitor_name: Seq<char>,
}

impl View for AerospaceMonitor {
    type V = AerospaceMonitorView;

    open spec fn view(&self) -> AerospaceMonitorView {
        AerospaceMonitorView { monitor_id: self.monitor_id, monitor_name: self.monitor_name@ }
    }
}

impl DeepView for AerospaceMonitor {
    type V = AerospaceMonitorView;

    open spec fn deep_view(&self) -> AerospaceMonitorView {
        self@
    }
}

/// The name under which AeroSpace writes a layout.
pub open spec fn layout_name_spec(layout: AerospaceLayout) -> Seq<char> {
    match layout {
        AerospaceLayout::HTiles => "h_tiles"@,
        AerospaceLayout::VTiles => "v_tiles"@,
        AerospaceLayout::HAccordion => "h_accordion"@,
        AerospaceLayout::VAccordion => "v_accordion"@,
    }
}

/// The layout that AeroSpace writes under a name.
pub open spec fn layout_from_name_spec(name: Seq<char>) -> Option<AerospaceLayout> {
    if name == "h_tiles"@ {
        Some(AerospaceLayout::HTiles)
    } else if name == "v_tiles"@ {
        Some(AerospaceLayout::VTiles)
    } else if name == "h_accordion"@ {
        Some(AerospaceLayout::HAccordion)
    } else if name == "v_accordion"@ {
        Some(AerospaceLayout::VAccordion)
    } else {
        None
    }
}

impl AerospaceLayout {
    /// The name under which AeroSpace writes the layout (what `Display`
    /// printed).
    pub fn as_str(&self) -> (r: &'static str)
        ensures
            r@ == layout_name_spec(*self),
    {
        match self {
            AerospaceLayout::HTiles => "h_tiles",
            AerospaceLayout::VTiles => "v_tiles",
            AerospaceLayout::HAccordion => "h_accordion",
            AerospaceLayout::VAccordion => "v_accordion",
        }
    }

    /// The layout named `name`, if any.
    pub fn from_name(name: &str) -> (r: Option<AerospaceLayout>)
        ensures
            r == layout_from_name_spec(name@),
    {
        proof {
            reveal_strlit("h_tiles");
            reveal_strlit("v_tiles");
            reveal_strlit("h_accordion");
            reveal_strlit("v_accordion");
        }
        if crate::text::text_eq(name, "h_tiles") {
            Some(AerospaceLayout::HTiles)
        } else if crate::text::text_eq(name, "v_tiles") {
            Some(AerospaceLayout::VTiles)
        } else if crate::text::text_eq(name, "h_accordion") {
            Some(AerospaceLayout::HAccordion)
        } else if crate::text::text_eq(name, "v_accordion") {
            Some(AerospaceLayout::VAccordion)
        } else {
            None
        }
    }
}

/// The layout that a JSON value names: a string with the layout's name, or
/// an object whose single member is named after the layout and holds `null`.
pub open spec fn layout_json_spec(v: Option<JsonValue>) -> Option<AerospaceLayout> {
    match v {
        Some(JsonValue::Str(s)) => layout_from_name_spec(s@),
        Some(JsonValue::Object(entries)) => {
            if entries@.len() == 1 && entries@[0].1 is Null {
                layout_from_name_spec(entries@[0].0@)
            } else {
                None
            }
        },
        _ => None,
    }
}

/// Reads a layout member.
pub fn layout_from_json(v: Option<&JsonValue>) -> (r: Option<AerospaceLayout>)
    ensures
        r == layout_json_spec(crate::json::deref_member(v)),
{
    match v {
        Some(JsonValue::Str(s)) => AerospaceLayout::from_name(s.as_str()),
        Some(JsonValue::Object(entries)) => {
            if entries.len() == 1 {
                match &entries[0].1 {
                    JsonValue::Null => AerospaceLayout::from_name(entries[0].0.as_str()),
                    _ => None,
                }
            } else {
                None
            }
        },
        _ => None,
    }
}

impl FromJson for AerospaceWindow {
    /// An object with a `window-id` number that fits in `u32`; its
    /// `window-title`, `app-name`, `app-bundle-id` and `workspace` strings
    /// read as empty where they are `null` or absent.
    open spec fn from_json_spec(v: JsonValue) -> Option<AerospaceWindowView> {
        match v {
            JsonValue::Object(entries) => {
                let id = required_unsigned_spec(member_spec(entries@, "window-id"@), 0xffff_ffff);
                let title = string_or_default_spec(member_spec(entries@, "window-title"@));
                let app = string_or_default_spec(member_spec(entries@, "app-name"@));
                let bundle = string_or_default_spec(member_spec(entries@, "app-bundle-id"@));
                let ws = string_or_default_spec(member_spec(entries@, "workspace"@));
                if id is Some && title is Some && app is Some && bundle is Some && ws is Some {
                    Some(AerospaceWindowView {
                        window_id: id->0 as u32,
                        window_title: title->0,
                        app_name: app->0,
                        app_bundle_id: bundle->0,
                        workspace: ws->0,
                    })
                } else {
                    None
                }
            },
            _ => None,
        }
    }

    fn from_json(v: &JsonValue) -> (r: Option<AerospaceWindow>) {
        match v {
            JsonValue::Object(entries) => {
                let id = required_unsigned(member(entries, "window-id"), 0xffff_ffff);
                let title = string_or_default(member(entries, "window-title"));
                let app = string_or_default(member(entries, "app-name"));
                let bundle = string_or_default(member(entries, "app-bundle-id"));
                let ws = string_or_default(member(entries, "workspace"));
                match (id, title, app, bundle, ws) {
                    (Some(id), Some(title), Some(app), Some(bundle), Some(ws)) => Some(AerospaceWindow {
                        window_id: id as u32,
                        window_title: title,
                        app_name: app,
                        app_bundle_id: bundle,
                        workspace: ws,
                    }),
                    _ => None,
                }
            },
            _ => None,
        }
    }
}

impl FromJson for AerospaceApp {
    /// An object with an `app-pid` number that fits in `u32`; its
    /// `app-bundle-id` and `app-name` strings read as empty where they are
    /// `null` or absent.
    open spec fn from_json_spec(v: JsonValue) -> Option<AerospaceAppView> {
        match v {
            JsonValue::Object(entries) => {
                let bundle = string_or_default_spec(member_spec(entries@, "app-bundle-id"@));
                let name = string_or_default_spec(member_spec(entries@, "app-name"@));
                let pid = required_unsigned_spec(member_spec(entries@, "app-pid"@), 0xffff_ffff);
                if bundle is Some && name is Some && pid is Some {
                    Some(AerospaceAppView { app_bundle_id: bundle->0, app_name: name->0, app_pid: pid->0 as u32 })
                } else {
                    None
                }
            },
            _ => None,
        }
    }

    fn from_json(v: &JsonValue) -> (r: Option<AerospaceApp>) {
        match v {
            JsonValue::Object(entries) => {
                let bundle = string_or_default(member(entries, "app-bundle-id"));
                let name = string_or_default(member(entries, "app-name"));
                let pid = required_unsigned(member(entries, "app-pid"), 0xffff_ffff);
                match (bundle, name, pid) {
                    (Some(bundle), Some(name), Some(pid)) => Some(AerospaceApp {
                        app_bundle_id: bundle,
                        app_name: name,
                        app_pid: pid as u32,
                    }),
                    _ => None,
                }
            },
            _ => None,
        }
    }
}

impl FromJson for AerospaceWorkspace {
    /// An object with a `workspace` string and a
    /// `workspace-root-container-layout` layout.
    open spec fn from_json_spec(v: JsonValue) -> Option<AerospaceWorkspaceView> {
        match v {
            JsonValue::Object(entries) => {
                let name = required_string_spec(member_spec(entries@, "workspace"@));
                let layout = layout_json_spec(member_spec(entries@, "workspace-root-container-layout"@));
                if name is Some && layout is Some {
                    Some(AerospaceWorkspaceView { workspace: name->0, layout: layout->0 })
                } else {
                    None
                }
            },
            _ => None,
        }
    }

    fn from_json(v: &JsonValue) -> (r: Option<AerospaceWorkspace>) {
        match v {
            JsonValue::Object(entries) => {
                let name = required_string(member(entries, "workspace"));
                let layout = layout_from_json(member(entries, "workspace-root-container-layout"));
                match (name, layout) {
                    (Some(name), Some(layout)) => Some(AerospaceWorkspace { workspace: name, layout }),
                    _ => None,
                }
            },
            _ => None,
        }
    }
}

impl FromJson for AerospaceMonitor {
    /// An object with a `monitor-id` number that fits in `i32`; its
    /// `monitor-name` string reads as empty where it is `null` or absent.
    open spec fn from_json_spec(v: JsonValue) -> Option<AerospaceMonitorView> {
        match v {
            JsonValue::Object(entries) => {
                let id = required_i32_spec(member_spec(entries@, "monitor-id"@));
                let name = string_or_default_spec(member_spec(entries@, "monitor-name"@));
                if id is Some && name is Some {
                    Some(AerospaceMonitorView { monitor_id: id->0 as i32, monitor_name: name->0 })
                } else {
                    None
                }
            },
            _ => None,
        }
    }

    fn from_json(v: &JsonValue) -> (r: Option<AerospaceMonitor>) {
        match v {
            JsonValue::Object(entries) => {
                let id = required_i32(member(entries, "monitor-id"));
                let name = string_or_default(member(entries, "monitor-name"));
                match (id, name) {
                    (Some(id), Some(name)) => Some(AerospaceMonitor { monitor_id: id, monitor_name: name }),
                    _ => None,
                }
            },
            _ => None,
        }
    }
}

} // verus!
