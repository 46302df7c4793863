//! The plan that puts a stage back: moves for the windows that are not on
//! their workspace yet, then a flattening and a layout change for each
//! workspace that the stage gives a layout.

use vstd::prelude::*;
use vstd::string::StringExecFns;

use crate::aerospace::types::{AerospaceLayout, AerospaceWindow, AerospaceWindowId, AerospaceWindowView};
use crate::aerospace::backend::cli::unit_result;
use crate::aerospace::backend::error::{AerospaceBackendError, AerospaceBackendErrorView};
use crate::aerospace::backend::AerospaceBackend;
use crate::aerospace::client::Aerospace;
use crate::restore::resolution::{
    law_windows_go_to_stage_workspaces, names_workspace, resolve_spec, window_ids, WindowResolution,
};
use crate::stage::{Stage, StageView};
use crate::restore::types::{ResolvedWindowMatchView, ResolveTargetView};
use crate::stage::{StageWindow, StageWindowView, StageWorkspace, StageWorkspaceView};
use crate::text::text_eq;
use crate::types::{aerospace_layout_of, law_layout_keeps_its_name, stage_layout_name};
use crate::aerospace::types::layout_name_spec;

verus! {

/// One step of restoring a stage.
#[derive(Debug)]
pub enum RestoreAction {
    MoveToWorkspace { workspace: String, target_window: AerospaceWindowId },
    ChangeLayout { workspace: String, target_layout: AerospaceLayout },
    FlattenWorkspace { workspace: String },
}

/// The contents of a [`RestoreAction`].
pub enum RestoreActionView {
    MoveToWorkspace { workspace: Seq<char>, target_window: u32 },
    ChangeLayout { workspace: Seq<char>, target_layout: AerospaceLayout },
    FlattenWorkspace { workspace: Seq<char> },
}

impl View for RestoreAction {
    type V = RestoreActionView;

    open spec fn view(&self) -> RestoreActionView {
        match self {
            RestoreAction::MoveToWorkspace { workspace, target_window } =>
                RestoreActionView::MoveToWorkspace { workspace: workspace@, target_window: *target_window },
            RestoreAction::ChangeLayout { workspace, target_layout } =>
                RestoreActionView::ChangeLayout { workspace: workspace@, target_layout: *target_layout },
            RestoreAction::FlattenWorkspace { workspace } => RestoreActionView::FlattenWorkspace { workspace: workspace@ },
        }
    }
}

impl DeepView for RestoreAction {
    type V = RestoreActionView;

    open spec fn deep_view(&self) -> RestoreActionView {
        self@
    }
}

/// The steps that restore a stage, in the order they are taken.
#[derive(Debug)]
pub struct RestorePlan {
    pub plan: Vec<RestoreAction>,
}

/// The workspace that a window with id `id` is on now, as the last live
/// window with that id reports it.
pub open spec fn current_workspace(live: Seq<AerospaceWindowView>, id: u32) -> Option<Seq<char>>
    decreases live.len(),
{
    if live.len() == 0 {
        None
    } else if live.last().window_id == id {
        Some(live.last().workspace)
    } else {
        current_workspace(live.drop_last(), id)
    }
}

/// The move for one match: a window that is live and not on its target
/// workspace yet is moved there; others need no move.
pub open spec fn move_for(live: Seq<AerospaceWindowView>, m: ResolvedWindowMatchView) -> Seq<RestoreActionView> {
    match current_workspace(live, m.window_id) {
        Some(now) => if now != m.target_workspace {
            seq![RestoreActionView::MoveToWorkspace { workspace: m.target_workspace, target_window: m.window_id }]
        } else {
            Seq::empty()
        },
        None => Seq::empty(),
    }
}

/// The moves for the matches, in the order of the matches.
pub open spec fn move_actions(resolved: Seq<ResolvedWindowMatchView>, live: Seq<AerospaceWindowView>) -> Seq<RestoreActionView>
    decreases resolved.len(),
{
    if resolved.len() == 0 {
        Seq::empty()
    } else {
        move_actions(resolved.drop_last(), live) + move_for(live, resolved.last())
    }
}

/// A flattening of each workspace that has a layout, in stage order.
pub open spec fn flatten_actions(workspaces: Seq<StageWorkspaceView>) -> Seq<RestoreActionView>
    decreases workspaces.len(),
{
    if workspaces.len() == 0 {
        Seq::empty()
    } else {
        let ws = workspaces.last();
        flatten_actions(workspaces.drop_last()) + if ws.layout is Some {
            seq![RestoreActionView::FlattenWorkspace { workspace: ws.name }]
        } else {
            Seq::empty()
        }
    }
}

/// A layout change for each workspace that has a layout, in stage order.
pub open spec fn layout_actions(workspaces: Seq<StageWorkspaceView>) -> Seq<RestoreActionView>
    decreases workspaces.len(),
{
    if workspaces.len() == 0 {
        Seq::empty()
    } else {
        let ws = workspaces.last();
        layout_actions(workspaces.drop_last()) + match ws.layout {
            Some(layout) => seq![RestoreActionView::ChangeLayout { workspace: ws.name, target_layout: aerospace_layout_of(layout) }],
            None => Seq::empty(),
        }
    }
}

/// The plan: the moves, then the flattenings, then the layout changes.
pub open spec fn plan_spec(workspaces: Seq<StageWorkspaceView>, resolved: Seq<ResolvedWindowMatchView>, live: Seq<AerospaceWindowView>) -> Seq<RestoreActionView> {
    move_actions(resolved, live) + flatten_actions(workspaces) + layout_actions(workspaces)
}

/// The workspace that the window with id `id` is on now.
fn find_current_workspace<'a>(live: &'a [AerospaceWindow], id: u32) -> (r: Option<&'a String>)
    ensures
        r.deep_view() == current_workspace(live.deep_view(), id),
{
    let mut i: usize = live.len();
    assert(live.deep_view().take(i as int) =~= live.deep_view());
    while i > 0
        invariant
            i <= live.len(),
            current_workspace(live.deep_view(), id) == current_workspace(live.deep_view().take(i as int), id),
        decreases i,
    {
        let ghost prefix = live.deep_view().take(i as int);
        assert(prefix.drop_last() =~= live.deep_view().take(i - 1));
        assert(prefix.last() == live@[i - 1]@);
        if live[i - 1].window_id == id {
            return Some(&live[i - 1].workspace);
        }
        i = i - 1;
    }
    None
}

/// The copy of a text.
fn copy_text(s: &String) -> (r: String)
    ensures
        r@ == s@,
{
    s.clone()
}

impl RestorePlan {
    /// The moves for the matches of `resolution` (see [`move_actions`]).
    pub fn resolve_move_window_actions(resolution: &WindowResolution, live_windows: &[AerospaceWindow]) -> (r: Vec<RestoreAction>)
        ensures
            r.deep_view() == move_actions(resolution@.resolved, live_windows.deep_view()),
    {
        let resolved = &resolution.resolved_windows;
        let mut actions: Vec<RestoreAction> = Vec::new();
        let mut i: usize = 0;
        while i < resolved.len()
            invariant
                i <= resolved.len(),
                resolved.deep_view() == resolution@.resolved,
                actions.deep_view() == move_actions(resolved.deep_view().take(i as int), live_windows.deep_view()),
            decreases resolved.len() - i,
        {
            let mapping = &resolved[i];
            let ghost before = actions.deep_view();
            proof {
                let prefix = resolved.deep_view().take(i + 1);
                assert(prefix.drop_last() =~= resolved.deep_view().take(i as int));
                assert(prefix.last() == mapping@);
            }
            match find_current_workspace(live_windows, mapping.window_id) {
                Some(current) => {
                    if !text_eq(current.as_str(), mapping.target_workspace.as_str()) {
                        let action = RestoreAction::MoveToWorkspace {
                            workspace: copy_text(&mapping.target_workspace),
                            target_window: mapping.window_id,
                        };
                        actions.push(action);
                        assert(actions.deep_view() =~= before.push(action@));
                    } else {
                        assert(actions.deep_view() =~= before + Seq::<RestoreActionView>::empty());
                    }
                },
                None => {
                    assert(actions.deep_view() =~= before + Seq::<RestoreActionView>::empty());
                },
            }
            i = i + 1;
        }
        assert(resolved.deep_view().take(i as int) =~= resolved.deep_view());
        actions
    }

    /// A flattening of each workspace that has a layout.
    pub fn resolve_flatten_workspace_actions(workspaces: &[StageWorkspace]) -> (r: Vec<RestoreAction>)
        ensures
            r.deep_view() == flatten_actions(workspaces.deep_view()),
    {
        let mut actions: Vec<RestoreAction> = Vec::new();
        let mut i: usize = 0;
        while i < workspaces.len()
            invariant
                i <= workspaces.len(),
                actions.deep_view() == flatten_actions(workspaces.deep_view().take(i as int)),
            decreases workspaces.len() - i,
        {
            let ws = &workspaces[i];
            let ghost before = actions.deep_view();
            proof {
                let prefix = workspaces.deep_view().take(i + 1);
                assert(prefix.drop_last() =~= workspaces.deep_view().take(i as int));
                assert(prefix.last() == ws@);
            }
            if ws.layout.is_some() {
                let action = RestoreAction::FlattenWorkspace { workspace: copy_text(&ws.name) };
                actions.push(action);
                assert(actions.deep_view() =~= before.push(action@));
            } else {
                assert(actions.deep_view() =~= before + Seq::<RestoreActionView>::empty());
            }
            i = i + 1;
        }
        assert(workspaces.deep_view().take(i as int) =~= workspaces.deep_view());
        actions
    }

    /// A layout change for each workspace that has a layout.
    pub fn resolve_layout_actions(workspaces: &[StageWorkspace]) -> (r: Vec<RestoreAction>)
        ensures
            r.deep_view() == layout_actions(workspaces.deep_view()),
    {
        let mut actions: Vec<RestoreAction> = Vec::new();
        let mut i: usize = 0;
        while i < workspaces.len()
            invariant
                i <= workspaces.len(),
                actions.deep_view() == layout_actions(workspaces.deep_view().take(i as int)),
            decreases workspaces.len() - i,
        {
            let ws = &workspaces[i];
            let ghost before = actions.deep_view();
            proof {
                let prefix = workspaces.deep_view().take(i + 1);
                assert(prefix.drop_last() =~= workspaces.deep_view().take(i as int));
                assert(prefix.last() == ws@);
            }
            match ws.layout {
                Some(layout) => {
                    let action = RestoreAction::ChangeLayout {
                        workspace: copy_text(&ws.name),
                        target_layout: AerospaceLayout::from(layout),
                    };
                    actions.push(action);
                    assert(actions.deep_view() =~= before.push(action@));
                },
                None => {
                    assert(actions.deep_view() =~= before + Seq::<RestoreActionView>::empty());
                },
            }
            i = i + 1;
        }
        assert(workspaces.deep_view().take(i as int) =~= workspaces.deep_view());
        actions
    }

    /// The plan for `workspaces` given `resolution` and the live windows
    /// (see [`plan_spec`]).
    pub fn resolve(workspaces: &[StageWorkspace], resolution: &WindowResolution, live_windows: &[AerospaceWindow]) -> (r: RestorePlan)
        ensures
            r.plan.deep_view() == plan_spec(workspaces.deep_view(), resolution@.resolved, live_windows.deep_view()),
    {
        let mut actions = Self::resolve_move_window_actions(resolution, live_windows);
        let mut flatten = Self::resolve_flatten_workspace_actions(workspaces);
        let mut layouts = Self::resolve_layout_actions(workspaces);
        let ghost a = actions.deep_view();
        let ghost f = flatten.deep_view();
        let ghost l = layouts.deep_view();
        actions.append(&mut flatten);
        assert(actions.deep_view() =~= a + f);
        actions.append(&mut layouts);
        assert(actions.deep_view() =~= a + f + l);
        RestorePlan { plan: actions }
    }
}

/// The text of an optional field, `-` where it is absent.
pub open spec fn or_dash(value: Option<Seq<char>>) -> Seq<char> {
    match value {
        Some(text) => text,
        None => "-"@,
    }
}

/// The line reported for a stage entry that no window was found for:
/// `Could not restore window <title> | <app> | <bundle id>`, with `-` for
/// an absent field.
pub open spec fn unrestored_line_spec(window: StageWindowView) -> Seq<char> {
    "Could not restore window "@ + or_dash(window.title) + " | "@ + or_dash(window.app) + " | "@ + or_dash(window.bundle_id)
}

fn text_or_dash(value: &Option<String>) -> (r: &str)
    ensures
        r@ == or_dash(value.deep_view()),
{
    match value {
        Some(text) => text.as_str(),
        None => {
            proof {
                reveal_strlit("-");
            }
            "-"
        },
    }
}

/// The line reported for a stage entry that no window was found for (see
/// [`unrestored_line_spec`]).
pub fn unrestored_line(window: &StageWindow) -> (r: String)
    ensures
        r@ == unrestored_line_spec(window@),
{
    let mut line = String::from_str("Could not restore window ");
    line.append(text_or_dash(&window.title));
    line.append(" | ");
    line.append(text_or_dash(&window.app));
    line.append(" | ");
    line.append(text_or_dash(&window.bundle_id));
    line
}

/// The lines reported for the entries of a stage that no live window was
/// found for.
pub open spec fn unrestored_lines_spec(pending: Seq<ResolveTargetView>) -> Seq<Seq<char>> {
    pending.map_values(|t: ResolveTargetView| unrestored_line_spec(t.window))
}

/// The lines reported for the entries that no window was found for, one per
/// entry, in order.
pub fn unrestored_lines(pending: &[crate::restore::types::ResolveTarget]) -> (r: Vec<String>)
    ensures
        r.deep_view() == unrestored_lines_spec(pending.deep_view()),
{
    let mut lines: Vec<String> = Vec::new();
    let mut i: usize = 0;
    while i < pending.len()
        invariant
            i <= pending.len(),
            lines.deep_view() == unrestored_lines_spec(pending.deep_view().take(i as int)),
        decreases pending.len() - i,
    {
        let line = unrestored_line(pending[i].target_window);
        let ghost before = lines.deep_view();
        lines.push(line);
        assert(pending.deep_view()[i as int] == pending@[i as int]@);
        assert(lines.deep_view() =~= before.push(line@));
        assert(lines.deep_view() =~= unrestored_lines_spec(pending.deep_view().take(i + 1)));
        i = i + 1;
    }
    assert(pending.deep_view().take(i as int) =~= pending.deep_view());
    lines
}

/// Whether `answer` is one that `backend` may give when asked to take
/// `action`.
pub open spec fn action_answer<B: AerospaceBackend>(backend: B, action: RestoreActionView, answer: Result<(), AerospaceBackendErrorView>) -> bool {
    match action {
        RestoreActionView::MoveToWorkspace { workspace, target_window } => backend.move_answer(workspace, target_window, answer),
        RestoreActionView::ChangeLayout { workspace, target_layout } => backend.layout_answer(workspace, target_layout, answer),
        RestoreActionView::FlattenWorkspace { workspace } => backend.flatten_answer(workspace, answer),
    }
}

/// Whether `answer` is what taking the steps of `plan` in order, stopping at
/// the first that fails, may come to: `Ok` where every step succeeded; the
/// error of a step where every step before it succeeded.
pub open spec fn plan_answer<B: AerospaceBackend>(backend: B, plan: Seq<RestoreActionView>, answer: Result<(), AerospaceBackendErrorView>) -> bool {
    match answer {
        Ok(()) => forall|i: int| 0 <= i < plan.len() ==> action_answer(backend, #[trigger] plan[i], Ok(())),
        Err(e) => exists|i: int| {
            &&& 0 <= i < plan.len()
            &&& forall|j: int| 0 <= j < i ==> action_answer(backend, #[trigger] plan[j], Ok(()))
            &&& #[trigger] action_answer(backend, plan[i], Err(e))
        },
    }
}

impl RestoreAction {
    /// Asks AeroSpace to take this step, and passes on its answer.
    pub fn execute<B: AerospaceBackend>(&self, aerospace: &Aerospace<B>) -> (r: Result<(), AerospaceBackendError>)
        ensures
            action_answer(aerospace.backend_spec(), self@, unit_result(r)),
    {
        match self {
            RestoreAction::MoveToWorkspace { workspace, target_window } => aerospace.move_node_to_workspace(workspace, *target_window),
            RestoreAction::ChangeLayout { workspace, target_layout } => aerospace.change_layout(workspace, target_layout),
            RestoreAction::FlattenWorkspace { workspace } => aerospace.flatten_workspace_tree(workspace),
        }
    }
}

impl RestorePlan {
    /// Takes the steps of the plan in order, stopping at the first that
    /// fails, whose error it passes on (see [`plan_answer`]).
    pub fn restore<B: AerospaceBackend>(&self, aerospace: &Aerospace<B>) -> (r: Result<(), AerospaceBackendError>)
        ensures
            plan_answer(aerospace.backend_spec(), self.plan.deep_view(), unit_result(r)),
    {
        let ghost backend = aerospace.backend_spec();
        let ghost plan = self.plan.deep_view();
        let mut i: usize = 0;
        while i < self.plan.len()
            invariant
                i <= self.plan.len(),
                backend == aerospace.backend_spec(),
                plan == self.plan.deep_view(),
                forall|j: int| 0 <= j < i ==> action_answer(backend, #[trigger] plan[j], Ok(())),
            decreases self.plan.len() - i,
        {
            assert(plan[i as int] == self.plan@[i as int]@);
            match self.plan[i].execute(aerospace) {
                Ok(()) => {},
                Err(e) => {
                    assert(action_answer(backend, plan[i as int], Err(e@)));
                    return Err(e);
                },
            }
            i = i + 1;
        }
        Ok(())
    }
}

/// What restoring `stage` may come to, given what `backend` may answer: the
/// windows are listed, matched to the stage, and the steps of the plan are
/// taken; then the lines for the entries no window was found for come back.
/// A failure is the failure to list the windows, or the failure of a step.
pub open spec fn restore_answer<B: AerospaceBackend>(backend: B, stage: StageView, answer: Result<Seq<Seq<char>>, AerospaceBackendErrorView>) -> bool {
    match answer {
        Ok(lines) => exists|live: Seq<AerospaceWindowView>| {
            &&& backend.windows_answer(Ok(live))
            &&& plan_answer(backend, plan_spec(stage.workspaces, #[trigger] resolve_spec(stage, live).resolved, live), Ok(()))
            &&& lines == unrestored_lines_spec(resolve_spec(stage, live).pending)
        },
        Err(e) => {
            ||| backend.windows_answer(Err(e))
            ||| exists|live: Seq<AerospaceWindowView>| {
                &&& backend.windows_answer(Ok(live))
                &&& plan_answer(backend, plan_spec(stage.workspaces, #[trigger] resolve_spec(stage, live).resolved, live), Err(e))
            }
        },
    }
}

/// Restores `stage`: lists the live windows, matches them to the stage,
/// takes the steps of the plan, and returns one line for each entry of the
/// stage that no window was found for (see [`restore_answer`]).
pub fn restore_stage<B: AerospaceBackend>(aerospace: &Aerospace<B>, stage: &Stage) -> (r: Result<Vec<String>, AerospaceBackendError>)
    ensures
        restore_answer(aerospace.backend_spec(), stage@, match r {
            Ok(lines) => Ok::<Seq<Seq<char>>, AerospaceBackendErrorView>(lines.deep_view()),
            Err(e) => Err(e@),
        }),
{
    let ghost backend = aerospace.backend_spec();
    let live_windows = match aerospace.list_windows() {
        Ok(windows) => windows,
        Err(e) => {
            return Err(e);
        },
    };
    let live = live_windows.as_slice();
    assert(live.deep_view() == live_windows.deep_view());
    let resolution = WindowResolution::resolve(stage, live);
    let stage_workspaces = stage.workspaces.as_slice();
    let restore_plan = RestorePlan::resolve(stage_workspaces, &resolution, live_windows.as_slice());
    proof {
        assert(stage_workspaces.deep_view() =~= stage@.workspaces);
    }
    match restore_plan.restore(aerospace) {
        Ok(()) => {},
        Err(e) => {
            assert(plan_answer(backend, plan_spec(stage@.workspaces, resolve_spec(stage@, live.deep_view()).resolved, live.deep_view()), Err(e@)));
            return Err(e);
        },
    }
    let pending = resolution.pending_targets.as_slice();
    let lines = unrestored_lines(pending);
    proof {
        assert(pending.deep_view() =~= resolution.pending_targets.deep_view());
        assert(lines.deep_view() == unrestored_lines_spec(resolve_spec(stage@, live.deep_view()).pending));
        assert(plan_answer(backend, plan_spec(stage@.workspaces, resolve_spec(stage@, live.deep_view()).resolved, live.deep_view()), Ok(())));
    }
    Ok(lines)
}


/// Whether a workspace named `name` is among `workspaces` with a layout.
pub open spec fn has_layout(workspaces: Seq<StageWorkspaceView>, name: Seq<char>) -> bool {
    exists|k: int| 0 <= k < workspaces.len() && #[trigger] workspaces[k].name == name && workspaces[k].layout is Some
}

/// Whether a workspace named `name` is among `workspaces` with a layout
/// that AeroSpace calls `layout`.
pub open spec fn sets_layout(workspaces: Seq<StageWorkspaceView>, name: Seq<char>, layout: AerospaceLayout) -> bool {
    exists|k: int| 0 <= k < workspaces.len() && #[trigger] workspaces[k].name == name
        && (workspaces[k].layout matches Some(l) && aerospace_layout_of(l) == layout)
}

/// Whether a step of restoring `stage` against the `live` windows only
/// touches what is there: a move takes a live window that is elsewhere now
/// to a workspace of the stage or to its default workspace; a flattening or
/// a layout change is for a workspace that the stage gives that layout.
pub open spec fn touches_only_what_is_there(action: RestoreActionView, stage: StageView, live: Seq<AerospaceWindowView>) -> bool {
    match action {
        RestoreActionView::MoveToWorkspace { workspace, target_window } => {
            &&& window_ids(live).contains(target_window)
            &&& current_workspace(live, target_window) is Some
            &&& current_workspace(live, target_window) != Some(workspace)
            &&& (names_workspace(stage.workspaces, workspace) || stage.default_workspace == Some(workspace))
        },
        RestoreActionView::FlattenWorkspace { workspace } => has_layout(stage.workspaces, workspace),
        RestoreActionView::ChangeLayout { workspace, target_layout } => sets_layout(stage.workspaces, workspace, target_layout),
    }
}

proof fn lemma_current_is_live(live: Seq<AerospaceWindowView>, id: u32)
    requires
        current_workspace(live, id) is Some,
    ensures
        window_ids(live).contains(id),
    decreases live.len(),
{
    if live.last().window_id == id {
        assert(window_ids(live)[live.len() - 1] == id);
    } else {
        lemma_current_is_live(live.drop_last(), id);
        let k = choose|k: int| 0 <= k < window_ids(live.drop_last()).len() && window_ids(live.drop_last())[k] == id;
        assert(window_ids(live)[k] == id);
    }
}

proof fn lemma_moves_touch_only_what_is_there(resolved: Seq<ResolvedWindowMatchView>, stage: StageView, live: Seq<AerospaceWindowView>)
    requires
        forall|i: int| 0 <= i < resolved.len() ==> {
            let target = #[trigger] resolved[i].target_workspace;
            names_workspace(stage.workspaces, target) || stage.default_workspace == Some(target)
        },
    ensures
        forall|i: int| 0 <= i < move_actions(resolved, live).len() ==> touches_only_what_is_there(#[trigger] move_actions(resolved, live)[i], stage, live),
    decreases resolved.len(),
{
    if resolved.len() > 0 {
        let init = resolved.drop_last();
        assert forall|i: int| 0 <= i < init.len() implies {
            let target = #[trigger] init[i].target_workspace;
            names_workspace(stage.workspaces, target) || stage.default_workspace == Some(target)
        } by {
            assert(init[i] == resolved[i]);
        }
        lemma_moves_touch_only_what_is_there(init, stage, live);
        let m = resolved.last();
        assert(m.target_workspace == resolved[resolved.len() - 1].target_workspace);
        if current_workspace(live, m.window_id) is Some {
            lemma_current_is_live(live, m.window_id);
        }
        let before = move_actions(init, live);
        let here = move_for(live, m);
        assert forall|i: int| 0 <= i < move_actions(resolved, live).len() implies touches_only_what_is_there(#[trigger] move_actions(resolved, live)[i], stage, live) by {
            if i < before.len() {
                assert(move_actions(resolved, live)[i] == before[i]);
            } else {
                assert(move_actions(resolved, live)[i] == here[i - before.len()]);
            }
        }
    }
}

proof fn lemma_flattenings_touch_only_what_is_there(workspaces: Seq<StageWorkspaceView>)
    ensures
        forall|i: int| 0 <= i < flatten_actions(workspaces).len() ==> (#[trigger] flatten_actions(workspaces)[i] matches
            RestoreActionView::FlattenWorkspace { workspace } && has_layout(workspaces, workspace)),
    decreases workspaces.len(),
{
    if workspaces.len() > 0 {
        let init = workspaces.drop_last();
        lemma_flattenings_touch_only_what_is_there(init);
        let before = flatten_actions(init);
        let last = workspaces.len() - 1;
        assert forall|i: int| 0 <= i < flatten_actions(workspaces).len() implies (#[trigger] flatten_actions(workspaces)[i] matches
            RestoreActionView::FlattenWorkspace { workspace } && has_layout(workspaces, workspace)) by {
            if i < before.len() {
                assert(flatten_actions(workspaces)[i] == before[i]);
                let name = before[i]->FlattenWorkspace_workspace;
                let k = choose|k: int| 0 <= k < init.len() && #[trigger] init[k].name == name && init[k].layout is Some;
                assert(workspaces[k] == init[k]);
            } else {
                assert(workspaces[last].name == workspaces.last().name);
            }
        }
    }
}

proof fn lemma_layouts_touch_only_what_is_there(workspaces: Seq<StageWorkspaceView>)
    ensures
        forall|i: int| 0 <= i < layout_actions(workspaces).len() ==> (#[trigger] layout_actions(workspaces)[i] matches
            RestoreActionView::ChangeLayout { workspace, target_layout } && sets_layout(workspaces, workspace, target_layout)),
    decreases workspaces.len(),
{
    if workspaces.len() > 0 {
        let init = workspaces.drop_last();
        lemma_layouts_touch_only_what_is_there(init);
        let before = layout_actions(init);
        let last = workspaces.len() - 1;
        assert forall|i: int| 0 <= i < layout_actions(workspaces).len() implies (#[trigger] layout_actions(workspaces)[i] matches
            RestoreActionView::ChangeLayout { workspace, target_layout } && sets_layout(workspaces, workspace, target_layout)) by {
            if i < before.len() {
                assert(layout_actions(workspaces)[i] == before[i]);
                let name = before[i]->ChangeLayout_workspace;
                let layout = before[i]->ChangeLayout_target_layout;
                let k = choose|k: int| 0 <= k < init.len() && #[trigger] init[k].name == name
                    && (init[k].layout matches Some(l) && aerospace_layout_of(l) == layout);
                assert(workspaces[k] == init[k]);
            } else {
                assert(workspaces[last].name == workspaces.last().name);
            }
        }
    }
}

/// Restoring only moves windows that are already open: each move of the
/// plan takes a live window that is not on its target workspace yet to a
/// workspace that the stage lists or to its default workspace, and each
/// flattening or layout change is for a workspace that the stage gives that
/// layout. The plan starts no application and touches nothing else.
pub proof fn law_restore_touches_only_what_is_there(stage: StageView, live: Seq<AerospaceWindowView>)
    ensures
        forall|i: int| 0 <= i < plan_spec(stage.workspaces, resolve_spec(stage, live).resolved, live).len() ==>
            touches_only_what_is_there(#[trigger] plan_spec(stage.workspaces, resolve_spec(stage, live).resolved, live)[i], stage, live),
{
    let resolved = resolve_spec(stage, live).resolved;
    law_windows_go_to_stage_workspaces(stage, live);
    lemma_moves_touch_only_what_is_there(resolved, stage, live);
    lemma_flattenings_touch_only_what_is_there(stage.workspaces);
    lemma_layouts_touch_only_what_is_there(stage.workspaces);
    let moves = move_actions(resolved, live);
    let flats = flatten_actions(stage.workspaces);
    let layouts = layout_actions(stage.workspaces);
    let plan = plan_spec(stage.workspaces, resolved, live);
    assert forall|i: int| 0 <= i < plan.len() implies touches_only_what_is_there(#[trigger] plan[i], stage, live) by {
        if i < moves.len() {
            assert(plan[i] == moves[i]);
        } else if i < moves.len() + flats.len() {
            assert(plan[i] == flats[i - moves.len()]);
        } else {
            assert(plan[i] == layouts[i - moves.len() - flats.len()]);
        }
    }
}

/// Restoring changes a workspace's layout to the layout of the same name as
/// the stage gives it: every layout change of the plan is for a workspace of
/// the stage whose layout the stage file names as AeroSpace names the
/// target layout.
pub proof fn law_layout_changes_keep_names(workspaces: Seq<StageWorkspaceView>)
    ensures
        forall|i: int| 0 <= i < layout_actions(workspaces).len() ==> (#[trigger] layout_actions(workspaces)[i] matches
            RestoreActionView::ChangeLayout { workspace, target_layout } && exists|k: int| {
                &&& 0 <= k < workspaces.len()
                &&& #[trigger] workspaces[k].name == workspace
                &&& workspaces[k].layout matches Some(l)
                &&& layout_name_spec(target_layout) == stage_layout_name(l)
            }),
{
    lemma_layouts_touch_only_what_is_there(workspaces);
    assert forall|i: int| 0 <= i < layout_actions(workspaces).len() implies (#[trigger] layout_actions(workspaces)[i] matches
        RestoreActionView::ChangeLayout { workspace, target_layout } && exists|k: int| {
            &&& 0 <= k < workspaces.len()
            &&& #[trigger] workspaces[k].name == workspace
            &&& workspaces[k].layout matches Some(l)
            &&& layout_name_spec(target_layout) == stage_layout_name(l)
        }) by {
        let a = layout_actions(workspaces)[i];
        let name = a->ChangeLayout_workspace;
        let target = a->ChangeLayout_target_layout;
        let k = choose|k: int| 0 <= k < workspaces.len() && #[trigger] workspaces[k].name == name
            && (workspaces[k].layout matches Some(l) && aerospace_layout_of(l) == target);
        let l = workspaces[k].layout->0;
        law_layout_keeps_its_name(l, target);
    }
}

} // verus!
