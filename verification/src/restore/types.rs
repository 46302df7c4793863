//! Stage entries waiting for a window, and what resolving one yields.

use vstd::prelude::*;

use crate::aerospace::types::{AerospaceWindow, AerospaceWindowId, AerospaceWindowView, AerospaceWorkspaceId};
use crate::stage::{StageWindow, StageWindowView, StageWorkspace, StageWorkspaceView};
use crate::text::{text_eq, trim_spec, trim_text};
use vstd::string::StrSliceExecFns;

verus! {

/// A stage entry that asks for a window: the window entry and the workspace
/// it belongs on.
#[derive(Debug, Clone, Copy)]
pub struct ResolveTarget<'a> {
    pub target_workspace: &'a StageWorkspace,
    pub target_window: &'a StageWindow,
}

/// The contents of a [`ResolveTarget`].
pub struct ResolveTargetView {
    pub workspace: StageWorkspaceView,
    pub window: StageWindowView,
}

impl<'a> View for ResolveTarget<'a> {
    type V = ResolveTargetView;

    open spec fn view(&self) -> ResolveTargetView {
        ResolveTargetView { workspace: self.target_workspace@, window: self.target_window@ }
    }
}

impl<'a> DeepView for ResolveTarget<'a> {
    type V = ResolveTargetView;

    open spec fn deep_view(&self) -> ResolveTargetView {
        self@
    }
}

/// A text that holds something once trimmed: the trimmed text.
pub open spec fn present_text_spec(value: Option<Seq<char>>) -> Option<Seq<char>> {
    match value {
        Some(text) => if trim_spec(text).len() > 0 { Some(trim_spec(text)) } else { None },
        None => None,
    }
}

/// Trims `value`, and drops it where nothing but whitespace is left.
pub fn present_text(value: Option<&str>) -> (r: Option<&str>)
    ensures
        r.deep_view() == present_text_spec(value.deep_view()),
{
    match value {
        Some(text) => {
            let trimmed = trim_text(text);
            if trimmed.unicode_len() > 0 {
                Some(trimmed)
            } else {
                None
            }
        },
        None => None,
    }
}

/// Whether a live window belongs to the application that a stage entry
/// names: the entry's app name and bundle id, where present once trimmed,
/// must both equal the window's. An entry that names neither accepts any
/// window.
pub open spec fn claims_app(entry: StageWindowView, window: AerospaceWindowView) -> bool {
    let app = present_text_spec(entry.app);
    let bundle_id = present_text_spec(entry.bundle_id);
    &&& (app matches Some(a) ==> a == window.app_name)
    &&& (bundle_id matches Some(b) ==> b == window.app_bundle_id)
}

impl<'a> ResolveTarget<'a> {
    /// Whether `window` belongs to the application of this entry (see
    /// [`claims_app`]).
    pub fn matches_window_app(&self, window: &AerospaceWindow) -> (r: bool)
        ensures
            r == claims_app(self.target_window@, window@),
    {
        let app = present_text(opt_as_str(&self.target_window.app));
        let bundle_id = present_text(opt_as_str(&self.target_window.bundle_id));
        match (app, bundle_id) {
            (None, None) => true,
            (Some(app), None) => text_eq(app, window.app_name.as_str()),
            (None, Some(bundle_id)) => text_eq(bundle_id, window.app_bundle_id.as_str()),
            (Some(app), Some(bundle_id)) => {
                text_eq(app, window.app_name.as_str()) && text_eq(bundle_id, window.app_bundle_id.as_str())
            },
        }
    }
}

/// The text of an optional string.
pub fn opt_as_str(value: &Option<String>) -> (r: Option<&str>)
    ensures
        r.deep_view() == value.deep_view(),
{
    match value {
        Some(s) => Some(s.as_str()),
        None => None,
    }
}

/// A live window and the workspace it is to be moved to.
#[derive(Debug, Clone, PartialEq)]
pub struct ResolvedWindowMatch {
    pub target_workspace: AerospaceWorkspaceId,
    pub window_id: AerospaceWindowId,
}

/// The contents of a [`ResolvedWindowMatch`].
pub struct ResolvedWindowMatchView {
    pub target_workspace: Seq<char>,
    pub window_id: u32,
}

impl View for ResolvedWindowMatch {
    type V = ResolvedWindowMatchView;

    open spec fn view(&self) -> ResolvedWindowMatchView {
        ResolvedWindowMatchView { target_workspace: self.target_workspace@, window_id: self.window_id }
    }
}

impl DeepView for ResolvedWindowMatch {
    type V = ResolvedWindowMatchView;

    open spec fn deep_view(&self) -> ResolvedWindowMatchView {
        self@
    }
}

/// A live window that no stage entry took.
#[derive(Debug, Clone, Copy)]
pub struct UnresolvedWindow {
    pub window_id: AerospaceWindowId,
}

impl View for UnresolvedWindow {
    type V = u32;

    open spec fn view(&self) -> u32 {
        self.window_id
    }
}

impl DeepView for UnresolvedWindow {
    type V = u32;

    open spec fn deep_view(&self) -> u32 {
        self.window_id
    }
}

} // verus!
