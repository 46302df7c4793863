//! A backend that answers without AeroSpace: no applications, windows or
//! workspaces, and every command succeeds.

use vstd::prelude::*;

use crate::aerospace::backend::error::{AerospaceBackendError, AerospaceBackendErrorView};
use crate::aerospace::backend::AerospaceBackend;
use crate::aerospace::types::{
    AerospaceAppView, AerospaceWindowView, AerospaceWorkspaceView, AerospaceApp, AerospaceLayout, AerospaceWindow, AerospaceWindowId, AerospaceWorkspace,
    AerospaceWorkspaceId,
};

verus! {

/// A backend with nothing in it.
pub struct MockAerospaceBackend {}

impl MockAerospaceBackend {
    pub fn new() -> Self {
        Self {}
    }
}

impl AerospaceBackend for MockAerospaceBackend {
    /// No applications.
    open spec fn apps_answer(&self, answer: Result<Seq<AerospaceAppView>, AerospaceBackendErrorView>) -> bool {
        answer == Ok::<Seq<AerospaceAppView>, AerospaceBackendErrorView>(Seq::empty())
    }

    /// No windows.
    open spec fn windows_answer(&self, answer: Result<Seq<AerospaceWindowView>, AerospaceBackendErrorView>) -> bool {
        answer == Ok::<Seq<AerospaceWindowView>, AerospaceBackendErrorView>(Seq::empty())
    }

    /// No workspaces.
    open spec fn workspaces_answer(&self, answer: Result<Seq<AerospaceWorkspaceView>, AerospaceBackendErrorView>) -> bool {
        answer == Ok::<Seq<AerospaceWorkspaceView>, AerospaceBackendErrorView>(Seq::empty())
    }

    /// Every move succeeds.
    open spec fn move_answer(&self, workspace: Seq<char>, window_id: u32, answer: Result<(), AerospaceBackendErrorView>) -> bool {
        answer == Ok::<(), AerospaceBackendErrorView>(())
    }

    /// Every layout change succeeds.
    open spec fn layout_answer(&self, workspace: Seq<char>, layout: AerospaceLayout, answer: Result<(), AerospaceBackendErrorView>) -> bool {
        answer == Ok::<(), AerospaceBackendErrorView>(())
    }

    /// Every flattening succeeds.
    open spec fn flatten_answer(&self, workspace: Seq<char>, answer: Result<(), AerospaceBackendErrorView>) -> bool {
        answer == Ok::<(), AerospaceBackendErrorView>(())
    }

    fn list_apps(&self) -> (r: Result<Vec<AerospaceApp>, AerospaceBackendError>)
        ensures
            r matches Ok(v) && v@.len() == 0,
    {
        let none: Vec<AerospaceApp> = Vec::new();
        assert(none.deep_view() =~= Seq::<AerospaceAppView>::empty());
        Ok(none)
    }

    fn list_windows(&self) -> (r: Result<Vec<AerospaceWindow>, AerospaceBackendError>)
        ensures
            r matches Ok(v) && v@.len() == 0,
    {
        let none: Vec<AerospaceWindow> = Vec::new();
        assert(none.deep_view() =~= Seq::<AerospaceWindowView>::empty());
        Ok(none)
    }

    fn list_workspaces(&self) -> (r: Result<Vec<AerospaceWorkspace>, AerospaceBackendError>)
        ensures
            r matches Ok(v) && v@.len() == 0,
    {
        let none: Vec<AerospaceWorkspace> = Vec::new();
        assert(none.deep_view() =~= Seq::<AerospaceWorkspaceView>::empty());
        Ok(none)
    }

    fn move_node_to_workspace(&self, workspace: &AerospaceWorkspaceId, window_id: AerospaceWindowId) -> (r: Result<(), AerospaceBackendError>)
        ensures
            r is Ok,
    {
        Ok(())
    }

    fn layout(&self, workspace: &AerospaceWorkspaceId, layout: &AerospaceLayout) -> (r: Result<(), AerospaceBackendError>)
        ensures
            r is Ok,
    {
        Ok(())
    }

    fn flatten_workspace_tree(&self, workspace: &AerospaceWorkspaceId) -> (r: Result<(), AerospaceBackendError>)
        ensures
            r is Ok,
    {
        Ok(())
    }
}

} // verus!
