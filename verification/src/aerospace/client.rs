//! The client that the rest of the library talks to AeroSpace through.

use vstd::prelude::*;

use crate::aerospace::backend::cli::{items_outcome, unit_result};
use crate::aerospace::backend::error::AerospaceBackendError;
use crate::aerospace::backend::AerospaceBackend;
use crate::aerospace::types::{
    AerospaceApp, AerospaceLayout, AerospaceWindow, AerospaceWindowId, AerospaceWorkspace,
    AerospaceWorkspaceId,
};

verus! {

/// AeroSpace, reached through a backend.
pub struct Aerospace<B: AerospaceBackend> {
    backend: B,
}

impl<B: AerospaceBackend> Aerospace<B> {
    /// The backend that the client asks.
    pub closed spec fn backend_spec(self) -> B {
        self.backend
    }

    /// A client that asks `backend`.
    pub fn new(backend: B) -> (r: Self)
        ensures
            r.backend_spec() == backend,
    {
        Aerospace { backend }
    }

    /// The running applications, as the backend answers.
    pub fn list_apps(&self) -> (r: Result<Vec<AerospaceApp>, AerospaceBackendError>)
        ensures
            self.backend_spec().apps_answer(items_outcome(r)),
    {
        self.backend.list_apps()
    }

    /// All workspaces.
    pub fn list_workspaces(&self) -> (r: Result<Vec<AerospaceWorkspace>, AerospaceBackendError>)
        ensures
            self.backend_spec().workspaces_answer(items_outcome(r)),
    {
        self.backend.list_workspaces()
    }

    /// All windows.
    pub fn list_windows(&self) -> (r: Result<Vec<AerospaceWindow>, AerospaceBackendError>)
        ensures
            self.backend_spec().windows_answer(items_outcome(r)),
    {
        self.backend.list_windows()
    }

    /// Moves the window `window_id` to `workspace`.
    pub fn move_node_to_workspace(&self, workspace: &AerospaceWorkspaceId, window_id: AerospaceWindowId) -> (r: Result<(), AerospaceBackendError>)
        ensures
            self.backend_spec().move_answer(workspace@, window_id, unit_result(r)),
    {
        self.backend.move_node_to_workspace(workspace, window_id)
    }

    /// Sets the root layout of `workspace`.
    pub fn change_layout(&self, workspace: &AerospaceWorkspaceId, layout: &AerospaceLayout) -> (r: Result<(), AerospaceBackendError>)
        ensures
            self.backend_spec().layout_answer(workspace@, *layout, unit_result(r)),
    {
        self.backend.layout(workspace, layout)
    }

    /// Flattens the window tree of `workspace`.
    pub fn flatten_workspace_tree(&self, workspace: &AerospaceWorkspaceId) -> (r: Result<(), AerospaceBackendError>)
        ensures
            self.backend_spec().flatten_answer(workspace@, unit_result(r)),
    {
        self.backend.flatten_workspace_tree(workspace)
    }
}

} // verus!
