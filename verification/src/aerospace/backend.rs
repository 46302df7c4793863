//! Ways of talking to AeroSpace: its command line tool or its socket.

pub mod cli;
pub mod common;
pub mod error;
pub mod mock;
pub mod socket;

use vstd::prelude::*;

use crate::aerospace::backend::cli::{items_outcome, unit_result};
use crate::aerospace::backend::error::{AerospaceBackendError, AerospaceBackendErrorView};
use crate::aerospace::types::{
    AerospaceApp, AerospaceAppView, AerospaceLayout, AerospaceWindow, AerospaceWindowId,
    AerospaceWindowView, AerospaceWorkspace, AerospaceWorkspaceId, AerospaceWorkspaceView,
};

verus! {

/// What the library asks of AeroSpace. Each request comes back with an
/// answer that the backend may give for it (see the `*_answer` spec
/// functions); a backend that says no more about its answers may give any.
pub trait AerospaceBackend {
    /// Whether `answer` is one the backend may give when asked for the
    /// running applications.
    open spec fn apps_answer(&self, answer: Result<Seq<AerospaceAppView>, AerospaceBackendErrorView>) -> bool {
        true
    }

    /// Whether `answer` is one the backend may give when asked for all
    /// windows.
    open spec fn windows_answer(&self, answer: Result<Seq<AerospaceWindowView>, AerospaceBackendErrorView>) -> bool {
        true
    }

    /// Whether `answer` is one the backend may give when asked for all
    /// workspaces.
    open spec fn workspaces_answer(&self, answer: Result<Seq<AerospaceWorkspaceView>, AerospaceBackendErrorView>) -> bool {
        true
    }

    /// Whether `answer` is one the backend may give when asked to move the
    /// window `window_id` to `workspace`.
    open spec fn move_answer(&self, workspace: Seq<char>, window_id: u32, answer: Result<(), AerospaceBackendErrorView>) -> bool {
        true
    }

    /// Whether `answer` is one the backend may give when asked to set the
    /// root layout of `workspace` to `layout`.
    open spec fn layout_answer(&self, workspace: Seq<char>, layout: AerospaceLayout, answer: Result<(), AerospaceBackendErrorView>) -> bool {
        true
    }

    /// Whether `answer` is one the backend may give when asked to flatten
    /// the window tree of `workspace`.
    open spec fn flatten_answer(&self, workspace: Seq<char>, answer: Result<(), AerospaceBackendErrorView>) -> bool {
        true
    }

    /// The running applications.
    fn list_apps(&self) -> (r: Result<Vec<AerospaceApp>, AerospaceBackendError>)
        ensures
            self.apps_answer(items_outcome(r)),
    ;

    /// All windows, with the workspace each is on.
    fn list_windows(&self) -> (r: Result<Vec<AerospaceWindow>, AerospaceBackendError>)
        ensures
            self.windows_answer(items_outcome(r)),
    ;

    /// All workspaces, with their root layouts.
    fn list_workspaces(&self) -> (r: Result<Vec<AerospaceWorkspace>, AerospaceBackendError>)
        ensures
            self.workspaces_answer(items_outcome(r)),
    ;

    /// Moves the window `window_id` to `workspace`.
    fn move_node_to_workspace(&self, workspace: &AerospaceWorkspaceId, window_id: AerospaceWindowId) -> (r: Result<(), AerospaceBackendError>)
        ensures
            self.move_answer(workspace@, window_id, unit_result(r)),
    ;

    /// Sets the root layout of `workspace`.
    fn layout(&self, workspace: &AerospaceWorkspaceId, layout: &AerospaceLayout) -> (r: Result<(), AerospaceBackendError>)
        ensures
            self.layout_answer(workspace@, *layout, unit_result(r)),
    ;

    /// Flattens the window tree of `workspace`.
    fn flatten_workspace_tree(&self, workspace: &AerospaceWorkspaceId) -> (r: Result<(), AerospaceBackendError>)
        ensures
            self.flatten_answer(workspace@, unit_result(r)),
    ;
}

} // verus!
