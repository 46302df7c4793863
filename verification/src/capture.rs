//! Capturing a stage: which windows are on which workspace right now.

pub mod command;

use vstd::prelude::*;
use vstd::string::StringExecFns;

use crate::aerospace::backend::error::AerospaceBackendError;
use crate::aerospace::backend::AerospaceBackend;
use crate::aerospace::client::Aerospace;
use crate::aerospace::types::{AerospaceWindow, AerospaceWindowView, AerospaceWorkspace, AerospaceWorkspaceView};
use crate::stage::{Stage, StageView, StageWindow, StageWindowView, StageWorkspace, StageWorkspaceView};
use crate::text::text_eq;

verus! {

/// The stage entry that records a live window.
pub open spec fn stage_window_of(window: AerospaceWindowView) -> StageWindowView {
    StageWindowView {
        app: Some(window.app_name),
        title: Some(window.window_title),
        bundle_id: Some(window.app_bundle_id),
    }
}

/// Whether a window is on the workspace named `name`.
pub open spec fn on_workspace(name: Seq<char>) -> spec_fn(AerospaceWindowView) -> bool {
    |w: AerospaceWindowView| w.workspace == name
}

/// The entries for the windows on the workspace named `name`, in the order
/// in which AeroSpace listed the windows.
pub open spec fn windows_on(windows: Seq<AerospaceWindowView>, name: Seq<char>) -> Seq<StageWindowView> {
    windows.filter(on_workspace(name)).map_values(|w: AerospaceWindowView| stage_window_of(w))
}

/// Whether the workspace named `name` is to be captured: any workspace
/// when no list is given, else the workspaces on the list.
pub open spec fn wanted(filter: Option<Seq<Seq<char>>>, name: Seq<char>) -> bool {
    match filter {
        None => true,
        Some(names) => names.contains(name),
    }
}

/// Whether a workspace named `name` that is to be captured comes up among
/// `listed` already.
pub open spec fn captured_before(listed: Seq<AerospaceWorkspaceView>, filter: Option<Seq<Seq<char>>>, name: Seq<char>) -> bool {
    exists|k: int| 0 <= k < listed.len() && wanted(filter, listed[k].workspace) && #[trigger] listed[k].workspace == name
}

/// The captured workspaces: each listed workspace that is to be captured,
/// holds at least one window and did not come up before, with its windows
/// and no layout, in the order in which AeroSpace listed the workspaces.
pub open spec fn captured_workspaces(listed: Seq<AerospaceWorkspaceView>, windows: Seq<AerospaceWindowView>, filter: Option<Seq<Seq<char>>>) -> Seq<StageWorkspaceView>
    decreases listed.len(),
{
    if listed.len() == 0 {
        Seq::empty()
    } else {
        let init = listed.drop_last();
        let name = listed.last().workspace;
        captured_workspaces(init, windows, filter) + if wanted(filter, name) && !captured_before(init, filter, name)
            && windows_on(windows, name).len() > 0 {
            seq![StageWorkspaceView { name, windows: windows_on(windows, name), layout: None }]
        } else {
            Seq::empty()
        }
    }
}

/// The stage captured from the listed workspaces and windows.
pub open spec fn capture_spec(
    name: Option<Seq<char>>,
    filter: Option<Seq<Seq<char>>>,
    default_workspace: Option<Seq<char>>,
    listed: Seq<AerospaceWorkspaceView>,
    windows: Seq<AerospaceWindowView>,
) -> StageView {
    StageView {
        name,
        description: None,
        workspaces: captured_workspaces(listed, windows, filter),
        default_workspace,
    }
}

/// The texts of a list of names.
pub open spec fn texts(list: Seq<&str>) -> Seq<Seq<char>> {
    list.map_values(|n: &str| n@)
}

/// The texts of an optional list of names.
pub open spec fn names_of(names: Option<&[&str]>) -> Option<Seq<Seq<char>>> {
    match names {
        Some(list) => Some(texts(list@)),
        None => None,
    }
}

/// The text of an optional name.
pub open spec fn text_of(value: Option<&str>) -> Option<Seq<char>> {
    match value {
        Some(text) => Some(text@),
        None => None,
    }
}

fn owned_text(value: Option<&str>) -> (r: Option<String>)
    ensures
        r.deep_view() == text_of(value),
{
    match value {
        Some(text) => Some(String::from_str(text)),
        None => None,
    }
}

/// Whether `name` is to be captured (see [`wanted`]).
fn is_wanted(filter: Option<&[&str]>, name: &str) -> (r: bool)
    ensures
        r == wanted(names_of(filter), name@),
{
    match filter {
        None => true,
        Some(names) => {
            let ghost list = texts(names@);
            let mut i: usize = 0;
            while i < names.len()
                invariant
                    i <= names.len(),
                    list == texts(names@),
                    filter == Some(names),
                    forall|k: int| 0 <= k < i ==> #[trigger] list[k] != name@,
                decreases names.len() - i,
            {
                if text_eq(names[i], name) {
                    assert(list[i as int] == name@);
                    assert(list.contains(name@));
                    return true;
                }
                i = i + 1;
            }
            false
        },
    }
}

/// The entries for the windows on the workspace named `name` (see
/// [`windows_on`]).
fn stage_windows_on(windows: &[AerospaceWindow], name: &str) -> (r: Vec<StageWindow>)
    ensures
        r.deep_view() == windows_on(windows.deep_view(), name@),
{
    let mut out: Vec<StageWindow> = Vec::new();
    let mut i: usize = 0;
    while i < windows.len()
        invariant
            i <= windows.len(),
            out.deep_view() == windows_on(windows.deep_view().take(i as int), name@),
        decreases windows.len() - i,
    {
        let w = &windows[i];
        let ghost taken = windows.deep_view().take(i as int);
        proof {
            assert(windows.deep_view().take(i + 1) =~= taken.push(w@));
            taken.lemma_filter_push(w@, on_workspace(name@));
        }
        if text_eq(w.workspace.as_str(), name) {
            let entry = StageWindow {
                app: Some(w.app_name.clone()),
                title: Some(w.window_title.clone()),
                bundle_id: Some(w.app_bundle_id.clone()),
            };
            let ghost before = out.deep_view();
            out.push(entry);
            assert(out.deep_view() =~= before.push(entry@));
            assert(entry@ == stage_window_of(w@));
            assert(out.deep_view() =~= windows_on(windows.deep_view().take(i + 1), name@));
        } else {
            assert(windows_on(windows.deep_view().take(i + 1), name@) =~= windows_on(taken, name@));
        }
        i = i + 1;
    }
    assert(windows.deep_view().take(i as int) =~= windows.deep_view());
    out
}

/// Whether a workspace named `name` that is to be captured comes up among
/// the first `upto` listed workspaces.
fn seen_before(listed: &[AerospaceWorkspace], upto: usize, filter: Option<&[&str]>, name: &str) -> (r: bool)
    requires
        upto <= listed.len(),
    ensures
        r == captured_before(listed.deep_view().take(upto as int), names_of(filter), name@),
{
    let ghost init = listed.deep_view().take(upto as int);
    let mut k: usize = 0;
    while k < upto
        invariant
            k <= upto <= listed.len(),
            init == listed.deep_view().take(upto as int),
            forall|j: int| 0 <= j < k ==> !(wanted(names_of(filter), init[j].workspace) && #[trigger] init[j].workspace == name@),
        decreases upto - k,
    {
        assert(init[k as int] == listed@[k as int]@);
        if text_eq(listed[k].workspace.as_str(), name) && is_wanted(filter, listed[k].workspace.as_str()) {
            assert(wanted(names_of(filter), init[k as int].workspace) && init[k as int].workspace == name@);
            return true;
        }
        k = k + 1;
    }
    false
}

/// Captures the stage of workspaces from what AeroSpace listed.
pub struct StageCapturer<'a, B: AerospaceBackend> {
    pub aerospace: &'a Aerospace<B>,
}

impl<'a, B: AerospaceBackend> StageCapturer<'a, B> {
    pub fn new(aerospace: &'a Aerospace<B>) -> (r: Self)
        ensures
            r.aerospace == aerospace,
    {
        StageCapturer { aerospace }
    }

    /// The stage for the listed workspaces and windows (see
    /// [`capture_spec`]).
    pub fn build_stage(
        listed: &[AerospaceWorkspace],
        windows: &[AerospaceWindow],
        name: Option<&str>,
        target_workspaces: Option<&[&str]>,
        default_workspace: Option<&str>,
    ) -> (r: Stage)
        ensures
            r@ == capture_spec(text_of(name), names_of(target_workspaces), text_of(default_workspace), listed.deep_view(), windows.deep_view()),
    {
        let ghost filter = names_of(target_workspaces);
        let mut workspaces: Vec<StageWorkspace> = Vec::new();
        let mut i: usize = 0;
        while i < listed.len()
            invariant
                i <= listed.len(),
                filter == names_of(target_workspaces),
                workspaces.deep_view() == captured_workspaces(listed.deep_view().take(i as int), windows.deep_view(), filter),
            decreases listed.len() - i,
        {
            let ws = &listed[i];
            let ghost init = listed.deep_view().take(i as int);
            proof {
                assert(listed.deep_view().take(i + 1).drop_last() =~= init);
                assert(listed.deep_view().take(i + 1).last() == ws@);
            }
            let name_i = ws.workspace.as_str();
            let keep = is_wanted(target_workspaces, name_i) && !seen_before(listed, i, target_workspaces, name_i);
            let ghost before = workspaces.deep_view();
            if keep {
                let on = stage_windows_on(windows, name_i);
                if on.len() > 0 {
                    let entry = StageWorkspace { name: ws.workspace.clone(), windows: on, layout: None };
                    workspaces.push(entry);
                    assert(workspaces.deep_view() =~= before.push(entry@));
                } else {
                    assert(workspaces.deep_view() =~= before + Seq::<StageWorkspaceView>::empty());
                }
            } else {
                assert(workspaces.deep_view() =~= before + Seq::<StageWorkspaceView>::empty());
            }
            i = i + 1;
        }
        assert(listed.deep_view().take(i as int) =~= listed.deep_view());
        Stage {
            name: owned_text(name),
            description: None,
            workspaces,
            default_workspace: owned_text(default_workspace),
        }
    }

    /// Lists the workspaces and windows and captures the stage from them
    /// (see [`StageCapturer::build_stage`]); a failure to list either is
    /// passed on.
    pub fn capture(
        &self,
        name: Option<&str>,
        target_workspaces: Option<&[&str]>,
        default_workspace: Option<&str>,
    ) -> (r: Result<Stage, AerospaceBackendError>)
        ensures
            match r {
                Ok(stage) => exists|listed: Seq<AerospaceWorkspaceView>, windows: Seq<AerospaceWindowView>| {
                    &&& self.aerospace.backend_spec().workspaces_answer(Ok(listed))
                    &&& self.aerospace.backend_spec().windows_answer(Ok(windows))
                    &&& stage@ == #[trigger] capture_spec(text_of(name), names_of(target_workspaces), text_of(default_workspace), listed, windows)
                },
                Err(e) => {
                    ||| self.aerospace.backend_spec().workspaces_answer(Err(e@))
                    ||| exists|listed: Seq<AerospaceWorkspaceView>| {
                        &&& #[trigger] self.aerospace.backend_spec().workspaces_answer(Ok(listed))
                        &&& self.aerospace.backend_spec().windows_answer(Err(e@))
                    }
                },
            },
    {
        let aerospace_workspaces = match self.aerospace.list_workspaces() {
            Ok(listed) => listed,
            Err(e) => {
                return Err(e);
            },
        };
        let windows = match self.aerospace.list_windows() {
            Ok(windows) => windows,
            Err(e) => {
                return Err(e);
            },
        };
        let listed = aerospace_workspaces.as_slice();
        let live = windows.as_slice();
        let stage = Self::build_stage(listed, live, name, target_workspaces, default_workspace);
        assert(stage@ == capture_spec(text_of(name), names_of(target_workspaces), text_of(default_workspace), listed.deep_view(), live.deep_view()));
        Ok(stage)
    }
}

} // verus!
