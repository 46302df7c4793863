//! A small language for describing matching situations: live windows on
//! workspaces, a stage that asks for some of them, and checks on what
//! matching made of them. Checks that fail explain themselves with a dump
//! of the whole situation.

use vstd::prelude::*;
use vstd::string::{StrSliceExecFns, StringExecFns};

use crate::aerospace::types::{AerospaceWindow, AerospaceWindowView};
use crate::capture::text_of;
use crate::restore::resolution::{resolve_spec, WindowResolution};
use crate::restore::types::{ResolveTargetView, ResolvedWindowMatch, ResolvedWindowMatchView};
use crate::stage::{Stage, StageView, StageWindow, StageWindowView, StageWorkspace, StageWorkspaceView};

verus! {

/// An application of the scenarios: a few well-known ones, or any other.
#[derive(Debug, Clone, Copy, PartialEq, Eq)]
pub enum App {
    Safari,
    Slack,
    Code,
    Terminal,
    Custom { name: &'static str, bundle_id: &'static str },
}

/// The name of an application.
pub open spec fn app_name(app: App) -> Seq<char> {
    match app {
        App::Safari => "Safari"@,
        App::Slack => "Slack"@,
        App::Code => "Code"@,
        App::Terminal => "Terminal"@,
        App::Custom { name, .. } => name@,
    }
}

/// The bundle id of an application.
pub open spec fn app_bundle_id(app: App) -> Seq<char> {
    match app {
        App::Safari => "com.apple.Safari"@,
        App::Slack => "com.tinyspeck.slackmacgap"@,
        App::Code => "com.microsoft.VSCode"@,
        App::Terminal => "com.apple.Terminal"@,
        App::Custom { bundle_id, .. } => bundle_id@,
    }
}

/// The stage entry that asks for a window of `app`, with `title` if given.
pub open spec fn stage_window_for(app: App, title: Option<Seq<char>>) -> StageWindowView {
    StageWindowView { app: Some(app_name(app)), bundle_id: Some(app_bundle_id(app)), title }
}

impl App {
    /// An application of the given name and bundle id.
    pub fn custom(name: &'static str, bundle_id: &'static str) -> (r: Self)
        ensures
            r == (App::Custom { name, bundle_id }),
    {
        App::Custom { name, bundle_id }
    }

    /// The application's name.
    pub fn name(self) -> (r: &'static str)
        ensures
            r@ == app_name(self),
    {
        match self {
            App::Safari => "Safari",
            App::Slack => "Slack",
            App::Code => "Code",
            App::Terminal => "Terminal",
            App::Custom { name, .. } => name,
        }
    }

    /// The application's bundle id.
    pub fn bundle_id(self) -> (r: &'static str)
        ensures
            r@ == app_bundle_id(self),
    {
        match self {
            App::Safari => "com.apple.Safari",
            App::Slack => "com.tinyspeck.slackmacgap",
            App::Code => "com.microsoft.VSCode",
            App::Terminal => "com.apple.Terminal",
            App::Custom { bundle_id, .. } => bundle_id,
        }
    }

    fn stage_window(self, title: Option<&str>) -> (r: StageWindow)
        ensures
            r@ == stage_window_for(self, text_of(title)),
    {
        StageWindow {
            app: Some(String::from_str(self.name())),
            bundle_id: Some(String::from_str(self.bundle_id())),
            title: match title {
                Some(t) => Some(String::from_str(t)),
                None => None,
            },
        }
    }
}

/// A live window of a scenario and the handle the checks know it by.
#[derive(Debug)]
struct LiveWindow {
    handle: String,
    window: AerospaceWindow,
}

/// The contents of a live window of a scenario.
pub struct LiveWindowView {
    pub handle: Seq<char>,
    pub window: AerospaceWindowView,
}

impl View for LiveWindow {
    type V = LiveWindowView;

    closed spec fn view(&self) -> LiveWindowView {
        LiveWindowView { handle: self.handle@, window: self.window@ }
    }
}

impl DeepView for LiveWindow {
    type V = LiveWindowView;

    closed spec fn deep_view(&self) -> LiveWindowView {
        self@
    }
}

/// A scenario being described: the live windows so far, the stage's
/// workspaces so far, and its default workspace.
#[derive(Debug)]
pub struct Scenario {
    next_id: u32,
    default_workspace: Option<String>,
    lives: Vec<LiveWindow>,
    workspaces: Vec<StageWorkspace>,
}

/// The contents of a [`Scenario`].
pub struct ScenarioView {
    pub next_id: u32,
    pub default_workspace: Option<Seq<char>>,
    pub lives: Seq<LiveWindowView>,
    pub workspaces: Seq<StageWorkspaceView>,
}

impl View for Scenario {
    type V = ScenarioView;

    closed spec fn view(&self) -> ScenarioView {
        ScenarioView {
            next_id: self.next_id,
            default_workspace: self.default_workspace.deep_view(),
            lives: self.lives.deep_view(),
            workspaces: self.workspaces.deep_view(),
        }
    }
}

/// A live window being described, waiting for its workspace.
#[derive(Debug)]
pub struct LiveWindowBuilder {
    scenario: Scenario,
    handle: String,
    app: App,
    title: String,
}

/// The contents of a [`LiveWindowBuilder`].
pub struct LiveWindowBuilderView {
    pub scenario: ScenarioView,
    pub handle: Seq<char>,
    pub app: App,
    pub title: Seq<char>,
}

impl View for LiveWindowBuilder {
    type V = LiveWindowBuilderView;

    closed spec fn view(&self) -> LiveWindowBuilderView {
        LiveWindowBuilderView { scenario: self.scenario@, handle: self.handle@, app: self.app, title: self.title@ }
    }
}

/// A workspace of the stage being described.
#[derive(Debug)]
pub struct WorkspaceBuilder {
    name: String,
    windows: Vec<StageWindow>,
}

/// The contents of a [`WorkspaceBuilder`].
pub struct WorkspaceBuilderView {
    pub name: Seq<char>,
    pub windows: Seq<StageWindowView>,
}

impl View for WorkspaceBuilder {
    type V = WorkspaceBuilderView;

    closed spec fn view(&self) -> WorkspaceBuilderView {
        WorkspaceBuilderView { name: self.name@, windows: self.windows.deep_view() }
    }
}

/// Whether some live window of `lives` goes by `handle`.
pub open spec fn has_handle(lives: Seq<LiveWindowView>, handle: Seq<char>) -> bool {
    exists|i: int| 0 <= i < lives.len() && #[trigger] lives[i].handle == handle
}

impl Scenario {
    /// An empty scenario; windows get ids from 1 up.
    pub fn new() -> (r: Self)
        ensures
            r@ == (ScenarioView { next_id: 1, default_workspace: None, lives: Seq::empty(), workspaces: Seq::empty() }),
    {
        let lives: Vec<LiveWindow> = Vec::new();
        let workspaces: Vec<StageWorkspace> = Vec::new();
        let r = Self { next_id: 1, default_workspace: None, lives, workspaces };
        assert(r@.lives =~= Seq::<LiveWindowView>::empty());
        assert(r@.workspaces =~= Seq::<StageWorkspaceView>::empty());
        r
    }

    /// The scenario with `workspace` as the stage's default workspace.
    pub fn default_workspace(self, workspace: &str) -> (r: Self)
        ensures
            r@ == (ScenarioView { default_workspace: Some(workspace@), ..self@ }),
    {
        Self { default_workspace: Some(String::from_str(workspace)), ..self }
    }

    /// Starts describing a live window of `app` titled `title`, known as
    /// `handle`; handles are unique within a scenario.
    pub fn live(self, handle: &str, app: App, title: &str) -> (r: LiveWindowBuilder)
        requires
            !has_handle(self@.lives, handle@),
        ensures
            r@ == (LiveWindowBuilderView { scenario: self@, handle: handle@, app, title: title@ }),
    {
        LiveWindowBuilder { scenario: self, handle: String::from_str(handle), app, title: String::from_str(title) }
    }

    /// Adds the stage workspace `name`, with the entries that `build` adds.
    pub fn workspace<F: FnOnce(WorkspaceBuilder) -> WorkspaceBuilder>(self, name: &str, build: F) -> (r: Self)
        requires
            forall|b: WorkspaceBuilder| build.requires((b,)),
        ensures
            exists|b: WorkspaceBuilder, out: WorkspaceBuilder|
                b@ == (WorkspaceBuilderView { name: name@, windows: Seq::empty() }) && #[trigger] build.ensures((b,), out)
                && r@ == (ScenarioView {
                    workspaces: self@.workspaces.push(StageWorkspaceView { name: out@.name, windows: out@.windows, layout: None }),
                    ..self@
                }),
    {
        let mut scenario = self;
        let start = WorkspaceBuilder::new(name);
        let out = build(start);
        let workspace = out.finish();
        let ghost before = scenario.workspaces.deep_view();
        scenario.workspaces.push(workspace);
        assert(scenario.workspaces.deep_view() =~= before.push(workspace@));
        scenario
    }

    /// The result of matching the scenario's live windows to its stage.
    pub fn resolve(self) -> (r: ScenarioResult)
        ensures
            r@ == scenario_result_spec(self@),
    {
        let stage = Stage {
            name: None,
            description: None,
            workspaces: self.workspaces,
            default_workspace: self.default_workspace,
        };
        let mut windows: Vec<AerospaceWindow> = Vec::new();
        let mut i: usize = 0;
        while i < self.lives.len()
            invariant
                i <= self.lives.len(),
                windows.deep_view() == live_windows_of(self.lives.deep_view().take(i as int)),
            decreases self.lives.len() - i,
        {
            let copy = self.lives[i].window.duplicate();
            let ghost before = windows.deep_view();
            windows.push(copy);
            assert(windows.deep_view() =~= before.push(copy@));
            assert(self.lives.deep_view()[i as int] == self.lives@[i as int]@);
            assert(live_windows_of(self.lives.deep_view().take(i + 1)) =~= live_windows_of(self.lives.deep_view().take(i as int)).push(copy@));
            i = i + 1;
        }
        assert(self.lives.deep_view().take(i as int) =~= self.lives.deep_view());
        let live = windows.as_slice();
        assert(live.deep_view() =~= windows.deep_view());
        let resolution = WindowResolution::resolve(&stage, live);
        let WindowResolution { resolved_windows, pending_targets, unresolved_windows } = resolution;
        let mut pending: Vec<PendingClaim> = Vec::new();
        let mut k: usize = 0;
        while k < pending_targets.len()
            invariant
                k <= pending_targets.len(),
                pending.deep_view() == pending_targets.deep_view().take(k as int).map_values(|t: ResolveTargetView| pending_claim_of(t)),
            decreases pending_targets.len() - k,
        {
            let target = pending_targets[k];
            let claim = PendingClaim {
                workspace: target.target_workspace.name.clone(),
                app: copy_option(&target.target_window.app),
                title: copy_option(&target.target_window.title),
            };
            let ghost before = pending.deep_view();
            pending.push(claim);
            assert(pending.deep_view() =~= before.push(claim@));
            assert(pending_targets.deep_view()[k as int] == target@);
            assert(pending.deep_view() =~= pending_targets.deep_view().take(k + 1).map_values(|t: ResolveTargetView| pending_claim_of(t)));
            k = k + 1;
        }
        assert(pending_targets.deep_view().take(k as int) =~= pending_targets.deep_view());
        let mut unresolved_ids: Vec<u32> = Vec::new();
        let mut j: usize = 0;
        while j < unresolved_windows.len()
            invariant
                j <= unresolved_windows.len(),
                unresolved_ids@ == unresolved_windows.deep_view().take(j as int),
            decreases unresolved_windows.len() - j,
        {
            unresolved_ids.push(unresolved_windows[j].window_id);
            assert(unresolved_ids@ =~= unresolved_windows.deep_view().take(j + 1));
            j = j + 1;
        }
        assert(unresolved_windows.deep_view().take(j as int) =~= unresolved_windows.deep_view());
        ScenarioResult { lives: self.lives, stage, resolved: resolved_windows, pending, unresolved_ids }
    }
}

fn copy_option(value: &Option<String>) -> (r: Option<String>)
    ensures
        r.deep_view() == value.deep_view(),
{
    match value {
        Some(s) => Some(s.clone()),
        None => None,
    }
}

/// The live windows of a scenario.
pub open spec fn live_windows_of(lives: Seq<LiveWindowView>) -> Seq<AerospaceWindowView> {
    lives.map_values(|l: LiveWindowView| l.window)
}

/// The scenario once the described live window is put on `workspace`: it
/// gets the next free id, which then moves on by one.
pub open spec fn placed(b: LiveWindowBuilderView, workspace: Seq<char>) -> ScenarioView {
    ScenarioView {
        next_id: (b.scenario.next_id + 1) as u32,
        lives: b.scenario.lives.push(LiveWindowView {
            handle: b.handle,
            window: AerospaceWindowView {
                window_id: b.scenario.next_id,
                window_title: b.title,
                app_name: app_name(b.app),
                app_bundle_id: app_bundle_id(b.app),
                workspace,
            },
        }),
        ..b.scenario
    }
}

/// Whether the live windows carry the ids 1, 2, ... in the order they were
/// put on their workspaces, and `next_id` is the next one.
pub open spec fn numbered(s: ScenarioView) -> bool {
    &&& s.next_id == s.lives.len() + 1
    &&& forall|k: int| 0 <= k < s.lives.len() ==> #[trigger] s.lives[k].window.window_id == k + 1
}

/// The ids of the live windows.
pub open spec fn live_ids(lives: Seq<LiveWindowView>) -> Seq<u32> {
    lives.map_values(|l: LiveWindowView| l.window.window_id)
}

/// Over any chain of calls that starts from a new scenario, the live
/// windows are numbered 1, 2, ... in the order they are put on their
/// workspaces: a new scenario is numbered; putting a described window on a
/// workspace keeps the numbering; setting the default workspace or adding
/// stage workspaces does not touch it. Numbered windows have distinct ids.
pub proof fn law_scenario_numbering(
    s: ScenarioView,
    handle: Seq<char>,
    app: App,
    title: Seq<char>,
    workspace: Seq<char>,
    default_workspace: Option<Seq<char>>,
    workspaces: Seq<StageWorkspaceView>,
)
    ensures
        numbered(ScenarioView { next_id: 1, default_workspace: None, lives: Seq::empty(), workspaces: Seq::empty() }),
        numbered(s) && s.next_id < u32::MAX ==> numbered(placed(LiveWindowBuilderView { scenario: s, handle, app, title }, workspace)),
        numbered(s) ==> numbered(ScenarioView { default_workspace, workspaces, ..s }),
        numbered(s) ==> live_ids(s.lives).no_duplicates(),
{
    if numbered(s) && s.next_id < u32::MAX {
        let t = placed(LiveWindowBuilderView { scenario: s, handle, app, title }, workspace);
        assert forall|k: int| 0 <= k < t.lives.len() implies #[trigger] t.lives[k].window.window_id == k + 1 by {
            if k < s.lives.len() {
                assert(t.lives[k] == s.lives[k]);
            }
        }
    }
    if numbered(s) {
        let ids = live_ids(s.lives);
        assert forall|a: int, b: int| 0 <= a < ids.len() && 0 <= b < ids.len() && a != b implies ids[a] != ids[b] by {
            assert(ids[a] == s.lives[a].window.window_id);
            assert(ids[b] == s.lives[b].window.window_id);
        }
    }
}

impl LiveWindowBuilder {
    /// Puts the live window on `workspace`, with the next free id.
    pub fn on(self, workspace: &str) -> (r: Scenario)
        requires
            self@.scenario.next_id < u32::MAX,
        ensures
            r@ == placed(self@, workspace@),
    {
        let mut scenario = self.scenario;
        let window_id = scenario.next_id;
        scenario.next_id = scenario.next_id + 1;
        let window = AerospaceWindow::dummy()
            .with_window_id(window_id)
            .with_app_name(self.app.name())
            .with_bundle_id(self.app.bundle_id())
            .with_window_title(self.title.as_str())
            .with_workspace(workspace);
        let live = LiveWindow { handle: self.handle, window };
        let ghost before = scenario.lives.deep_view();
        scenario.lives.push(live);
        assert(scenario.lives.deep_view() =~= before.push(live@));
        scenario
    }
}

impl WorkspaceBuilder {
    fn new(name: &str) -> (r: Self)
        ensures
            r@ == (WorkspaceBuilderView { name: name@, windows: Seq::empty() }),
    {
        let windows: Vec<StageWindow> = Vec::new();
        assert(windows.deep_view() =~= Seq::<StageWindowView>::empty());
        Self { name: String::from_str(name), windows }
    }

    fn add(self, entry: StageWindow) -> (r: Self)
        ensures
            r@ == (WorkspaceBuilderView { windows: self@.windows.push(entry@), ..self@ }),
    {
        let mut builder = self;
        let ghost before = builder.windows.deep_view();
        builder.windows.push(entry);
        assert(builder.windows.deep_view() =~= before.push(entry@));
        builder
    }

    /// Asks for a window of `app` titled `title`.
    pub fn wants(self, app: App, title: &str) -> (r: Self)
        ensures
            r@ == (WorkspaceBuilderView { windows: self@.windows.push(stage_window_for(app, Some(title@))), ..self@ }),
    {
        let entry = app.stage_window(Some(title));
        self.add(entry)
    }

    /// Asks for a window of `app`, whatever its title.
    pub fn wants_app(self, app: App) -> (r: Self)
        ensures
            r@ == (WorkspaceBuilderView { windows: self@.windows.push(stage_window_for(app, None)), ..self@ }),
    {
        let entry = app.stage_window(None);
        self.add(entry)
    }

    /// Asks for a window titled `title`, of any application.
    pub fn wants_title(self, title: &str) -> (r: Self)
        ensures
            r@ == (WorkspaceBuilderView {
                windows: self@.windows.push(StageWindowView { app: None, bundle_id: None, title: Some(title@) }),
                ..self@
            }),
    {
        let entry = StageWindow { app: None, bundle_id: None, title: Some(String::from_str(title)) };
        self.add(entry)
    }

    fn finish(self) -> (r: StageWorkspace)
        ensures
            r@ == (StageWorkspaceView { name: self@.name, windows: self@.windows, layout: None }),
    {
        StageWorkspace { name: self.name, windows: self.windows, layout: None }
    }
}

/// A stage entry that matching left waiting.
#[derive(Debug)]
struct PendingClaim {
    workspace: String,
    app: Option<String>,
    title: Option<String>,
}

/// The contents of a waiting stage entry.
pub struct PendingClaimView {
    pub workspace: Seq<char>,
    pub app: Option<Seq<char>>,
    pub title: Option<Seq<char>>,
}

impl View for PendingClaim {
    type V = PendingClaimView;

    closed spec fn view(&self) -> PendingClaimView {
        PendingClaimView { workspace: self.workspace@, app: self.app.deep_view(), title: self.title.deep_view() }
    }
}

impl DeepView for PendingClaim {
    type V = PendingClaimView;

    closed spec fn deep_view(&self) -> PendingClaimView {
        self@
    }
}

/// What a waiting entry records.
pub open spec fn pending_claim_of(target: ResolveTargetView) -> PendingClaimView {
    PendingClaimView { workspace: target.workspace.name, app: target.window.app, title: target.window.title }
}

/// What matching made of a scenario.
#[derive(Debug)]
pub struct ScenarioResult {
    lives: Vec<LiveWindow>,
    stage: Stage,
    resolved: Vec<ResolvedWindowMatch>,
    pending: Vec<PendingClaim>,
    unresolved_ids: Vec<u32>,
}

/// The contents of a [`ScenarioResult`].
pub struct ScenarioResultView {
    pub lives: Seq<LiveWindowView>,
    pub stage: StageView,
    pub resolved: Seq<ResolvedWindowMatchView>,
    pub pending: Seq<PendingClaimView>,
    pub unresolved_ids: Seq<u32>,
}

impl View for ScenarioResult {
    type V = ScenarioResultView;

    closed spec fn view(&self) -> ScenarioResultView {
        ScenarioResultView {
            lives: self.lives.deep_view(),
            stage: self.stage@,
            resolved: self.resolved.deep_view(),
            pending: self.pending.deep_view(),
            unresolved_ids: self.unresolved_ids@,
        }
    }
}

/// The stage that a scenario describes.
pub open spec fn scenario_stage(s: ScenarioView) -> StageView {
    StageView { name: None, description: None, workspaces: s.workspaces, default_workspace: s.default_workspace }
}

/// What matching makes of a scenario.
pub open spec fn scenario_result_spec(s: ScenarioView) -> ScenarioResultView {
    let stage = scenario_stage(s);
    let resolution = resolve_spec(stage, live_windows_of(s.lives));
    ScenarioResultView {
        lives: s.lives,
        stage,
        resolved: resolution.resolved,
        pending: resolution.pending.map_values(|t: ResolveTargetView| pending_claim_of(t)),
        unresolved_ids: resolution.unresolved,
    }
}

/// The handle of the first live window with id `id`.
pub open spec fn handle_of(lives: Seq<LiveWindowView>, id: u32) -> Option<Seq<char>>
    decreases lives.len(),
{
    if lives.len() == 0 {
        None
    } else if lives[0].window.window_id == id {
        Some(lives[0].handle)
    } else {
        handle_of(lives.drop_first(), id)
    }
}

/// The handle of the live window with id `id`, or `<unknown>`.
pub open spec fn handle_for_spec(lives: Seq<LiveWindowView>, id: u32) -> Seq<char> {
    match handle_of(lives, id) {
        Some(handle) => handle,
        None => "<unknown>"@,
    }
}

/// The first live window that goes by `handle`.
pub open spec fn live_by_handle(lives: Seq<LiveWindowView>, handle: Seq<char>) -> Option<LiveWindowView>
    decreases lives.len(),
{
    if lives.len() == 0 {
        None
    } else if lives[0].handle == handle {
        Some(lives[0])
    } else {
        live_by_handle(lives.drop_first(), handle)
    }
}

/// The first match for the window with id `id`.
pub open spec fn match_of(resolved: Seq<ResolvedWindowMatchView>, id: u32) -> Option<ResolvedWindowMatchView>
    decreases resolved.len(),
{
    if resolved.len() == 0 {
        None
    } else if resolved[0].window_id == id {
        Some(resolved[0])
    } else {
        match_of(resolved.drop_first(), id)
    }
}

/// The match for the live window that goes by `handle`.
pub open spec fn resolved_for_spec(result: ScenarioResultView, handle: Seq<char>) -> Option<ResolvedWindowMatchView> {
    match live_by_handle(result.lives, handle) {
        Some(live) => match_of(result.resolved, live.window.window_id),
        None => None,
    }
}

/// Whether a match sends its window to the stage's default workspace, and
/// that workspace is not one the stage lists.
pub open spec fn is_fallback_spec(stage: StageView, m: ResolvedWindowMatchView) -> bool {
    stage.default_workspace == Some(m.target_workspace)
        && !crate::restore::resolution::names_workspace(stage.workspaces, m.target_workspace)
}

impl ScenarioResult {
    fn handle_for(&self, window_id: u32) -> (r: &str)
        ensures
            r@ == handle_for_spec(self@.lives, window_id),
    {
        let mut i: usize = 0;
        assert(self.lives.deep_view().skip(0) =~= self.lives.deep_view());
        while i < self.lives.len()
            invariant
                i <= self.lives.len(),
                handle_of(self.lives.deep_view(), window_id) == handle_of(self.lives.deep_view().skip(i as int), window_id),
            decreases self.lives.len() - i,
        {
            assert(self.lives.deep_view().skip(i as int).drop_first() =~= self.lives.deep_view().skip(i + 1));
            assert(self.lives.deep_view().skip(i as int)[0] == self.lives@[i as int]@);
            if self.lives[i].window.window_id == window_id {
                return self.lives[i].handle.as_str();
            }
            i = i + 1;
        }
        "<unknown>"
    }

    fn find_live(&self, handle: &str) -> (r: Option<&LiveWindow>)
        ensures
            match r {
                Some(live) => live_by_handle(self@.lives, handle@) == Some(live@),
                None => live_by_handle(self@.lives, handle@).is_none(),
            },
    {
        let mut i: usize = 0;
        assert(self.lives.deep_view().skip(0) =~= self.lives.deep_view());
        while i < self.lives.len()
            invariant
                i <= self.lives.len(),
                live_by_handle(self.lives.deep_view(), handle@) == live_by_handle(self.lives.deep_view().skip(i as int), handle@),
            decreases self.lives.len() - i,
        {
            assert(self.lives.deep_view().skip(i as int).drop_first() =~= self.lives.deep_view().skip(i + 1));
            assert(self.lives.deep_view().skip(i as int)[0] == self.lives@[i as int]@);
            if crate::text::text_eq(self.lives[i].handle.as_str(), handle) {
                return Some(&self.lives[i]);
            }
            i = i + 1;
        }
        None
    }

    fn find_match(&self, window_id: u32) -> (r: Option<&ResolvedWindowMatch>)
        ensures
            match r {
                Some(m) => match_of(self@.resolved, window_id) == Some(m@),
                None => match_of(self@.resolved, window_id).is_none(),
            },
    {
        let mut i: usize = 0;
        assert(self.resolved.deep_view().skip(0) =~= self.resolved.deep_view());
        while i < self.resolved.len()
            invariant
                i <= self.resolved.len(),
                match_of(self.resolved.deep_view(), window_id) == match_of(self.resolved.deep_view().skip(i as int), window_id),
            decreases self.resolved.len() - i,
        {
            assert(self.resolved.deep_view().skip(i as int).drop_first() =~= self.resolved.deep_view().skip(i + 1));
            assert(self.resolved.deep_view().skip(i as int)[0] == self.resolved@[i as int]@);
            if self.resolved[i].window_id == window_id {
                return Some(&self.resolved[i]);
            }
            i = i + 1;
        }
        None
    }

    fn resolved_for(&self, handle: &str) -> (r: Option<&ResolvedWindowMatch>)
        ensures
            match r {
                Some(m) => resolved_for_spec(self@, handle@) == Some(m@),
                None => resolved_for_spec(self@, handle@).is_none(),
            },
    {
        match self.find_live(handle) {
            Some(live) => self.find_match(live.window.window_id),
            None => None,
        }
    }

    fn is_fallback(&self, matched: &ResolvedWindowMatch) -> (r: bool)
        ensures
            r == is_fallback_spec(self@.stage, matched@),
    {
        let default = match &self.stage.default_workspace {
            Some(d) => d,
            None => {
                return false;
            },
        };
        if !crate::text::text_eq(matched.target_workspace.as_str(), default.as_str()) {
            return false;
        }
        let mut k: usize = 0;
        while k < self.stage.workspaces.len()
            invariant
                k <= self.stage.workspaces.len(),
                forall|j: int| 0 <= j < k ==> #[trigger] self@.stage.workspaces[j].name != matched@.target_workspace,
            decreases self.stage.workspaces.len() - k,
        {
            assert(self@.stage.workspaces[k as int] == self.stage.workspaces@[k as int]@);
            if crate::text::text_eq(self.stage.workspaces[k].name.as_str(), matched.target_workspace.as_str()) {
                assert(self@.stage.workspaces[k as int].name == matched@.target_workspace);
                assert(crate::restore::resolution::names_workspace(self@.stage.workspaces, matched@.target_workspace));
                return false;
            }
            k = k + 1;
        }
        true
    }
}

/// `text` padded with spaces on the right to `width` characters.
pub open spec fn pad_right(text: Seq<char>, width: nat) -> Seq<char> {
    text + crate::common::format::spaces(width - text.len())
}

/// `text` in double quotes.
pub open spec fn quoted(text: Seq<char>) -> Seq<char> {
    "\""@ + text + "\""@
}

/// The texts one after the other.
pub open spec fn concat_all(parts: Seq<Seq<char>>) -> Seq<char>
    decreases parts.len(),
{
    if parts.len() == 0 {
        Seq::empty()
    } else {
        concat_all(parts.drop_last()) + parts.last()
    }
}

/// The texts with `separator` between them.
pub open spec fn join_with(parts: Seq<Seq<char>>, separator: Seq<char>) -> Seq<char>
    decreases parts.len(),
{
    if parts.len() == 0 {
        Seq::empty()
    } else if parts.len() == 1 {
        parts[0]
    } else {
        join_with(parts.drop_last(), separator) + separator + parts.last()
    }
}

/// An optional text, `*` where it is absent.
pub open spec fn or_star(value: Option<Seq<char>>) -> Seq<char> {
    match value {
        Some(text) => text,
        None => "*"@,
    }
}

/// The line of the dump for a live window.
pub open spec fn live_line(live: LiveWindowView) -> Seq<char> {
    "  "@ + pad_right(live.handle, 8) + " #"@ + pad_right(crate::text::decimal_spec(live.window.window_id as nat), 3) + " "@
        + pad_right(live.window.app_name, 10) + " "@ + pad_right(quoted(live.window.window_title), 24) + " now on "@
        + live.window.workspace + "\n"@
}

/// How the dump shows a stage entry: its app (or `*`), then its quoted
/// title where it has one.
pub open spec fn claim_text(window: StageWindowView) -> Seq<char> {
    match window.title {
        Some(title) => or_star(window.app) + " "@ + quoted(title),
        None => or_star(window.app),
    }
}

/// The line of the dump for a stage workspace.
pub open spec fn workspace_line(workspace: StageWorkspaceView) -> Seq<char> {
    "  "@ + workspace.name + ": "@ + join_with(workspace.windows.map_values(|w: StageWindowView| claim_text(w)), ", "@) + "\n"@
}

/// The line of the dump for the default workspace.
pub open spec fn default_line(default: Option<Seq<char>>) -> Seq<char> {
    match default {
        Some(workspace) => "  default: "@ + workspace + "\n"@,
        None => "  default: (none)\n"@,
    }
}

/// A line of the dump for a match, after `label`.
pub open spec fn match_line(label: Seq<char>, lives: Seq<LiveWindowView>, m: ResolvedWindowMatchView) -> Seq<char> {
    label + handle_for_spec(lives, m.window_id) + " -> "@ + m.target_workspace + "\n"@
}

/// Whether a match is no fallback.
pub open spec fn not_fallback(stage: StageView) -> spec_fn(ResolvedWindowMatchView) -> bool {
    |m: ResolvedWindowMatchView| !is_fallback_spec(stage, m)
}

/// Whether a match is a fallback.
pub open spec fn fallback_of(stage: StageView) -> spec_fn(ResolvedWindowMatchView) -> bool {
    |m: ResolvedWindowMatchView| is_fallback_spec(stage, m)
}

/// The lines of the dump for `matches`, each after `label`, or one line
/// with `(none)`.
pub open spec fn match_section(label: Seq<char>, lives: Seq<LiveWindowView>, matches: Seq<ResolvedWindowMatchView>) -> Seq<char> {
    if matches.len() == 0 {
        label + "(none)\n"@
    } else {
        concat_all(matches.map_values(|m: ResolvedWindowMatchView| match_line(label, lives, m)))
    }
}

/// The line of the dump for a waiting entry.
pub open spec fn pending_line(claim: PendingClaimView) -> Seq<char> {
    "  pending:  "@ + or_star(claim.app) + match claim.title {
        Some(title) => " "@ + quoted(title),
        None => Seq::empty(),
    } + " on "@ + claim.workspace + "\n"@
}

/// The lines of the dump for the waiting entries.
pub open spec fn pending_section(pending: Seq<PendingClaimView>) -> Seq<char> {
    if pending.len() == 0 {
        "  pending:  (none)\n"@
    } else {
        concat_all(pending.map_values(|c: PendingClaimView| pending_line(c)))
    }
}

/// The line of the dump for the windows left where they are.
pub open spec fn leftover_section(lives: Seq<LiveWindowView>, unresolved: Seq<u32>) -> Seq<char> {
    if unresolved.len() == 0 {
        "  leftover: (none)\n"@
    } else {
        "  leftover: "@ + join_with(unresolved.map_values(|id: u32| handle_for_spec(lives, id)), ", "@) + "\n"@
    }
}

/// The dump of a scenario's result: the live windows, the stage, and what
/// matching made of them.
pub open spec fn dump_spec(r: ScenarioResultView) -> Seq<char> {
    "live:\n"@ + concat_all(r.lives.map_values(|l: LiveWindowView| live_line(l)))
        + "stage:\n"@ + concat_all(r.stage.workspaces.map_values(|w: StageWorkspaceView| workspace_line(w)))
        + default_line(r.stage.default_workspace)
        + "result:\n"@
        + match_section("  matched:  "@, r.lives, r.resolved.filter(not_fallback(r.stage)))
        + pending_section(r.pending)
        + leftover_section(r.lives, r.unresolved_ids)
        + match_section("  fallback: "@, r.lives, r.resolved.filter(fallback_of(r.stage)))
}

/// Appends `text` padded with spaces to `width` characters.
fn push_padded(out: &mut String, text: &str, width: usize)
    ensures
        final(out)@ == old(out)@ + pad_right(text@, width as nat),
{
    out.append(text);
    let chars = text.unicode_len();
    let ghost start = out@;
    let mut pad: usize = 0;
    while chars + pad < width
        invariant
            chars == text@.len(),
            out@ == start + crate::common::format::spaces(pad as int),
            chars + pad <= width || pad == 0,
        decreases width - pad,
    {
        proof {
            reveal_strlit(" ");
        }
        out.append(" ");
        assert(crate::common::format::spaces(pad as int).push(' ') =~= crate::common::format::spaces(pad + 1));
        pad = pad + 1;
    }
    assert(crate::common::format::spaces(pad as int) =~= crate::common::format::spaces(width - chars));
}

/// The texts of a list of texts.
pub open spec fn string_texts(list: Seq<String>) -> Seq<Seq<char>> {
    list.map_values(|t: String| t@)
}

/// Appends the texts with `separator` between them.
fn push_joined(out: &mut String, parts: &Vec<String>, separator: &str)
    ensures
        final(out)@ == old(out)@ + join_with(string_texts(parts@), separator@),
{
    let ghost start = out@;
    let ghost all = string_texts(parts@);
    let mut i: usize = 0;
    while i < parts.len()
        invariant
            i <= parts.len(),
            all == string_texts(parts@),
            out@ == start + join_with(all.take(i as int), separator@),
        decreases parts.len() - i,
    {
        if i > 0 {
            out.append(separator);
        }
        out.append(parts[i].as_str());
        proof {
            let prefix = all.take(i + 1);
            assert(prefix.drop_last() =~= all.take(i as int));
            assert(prefix.last() == parts@[i as int]@);
            if i == 0 {
                assert(join_with(prefix, separator@) == prefix[0]);
            }
        }
        i = i + 1;
    }
    assert(all.take(i as int) =~= all);
}

impl ScenarioResult {
    fn push_live_lines(&self, out: &mut String)
        ensures
            final(out)@ == old(out)@ + concat_all(self@.lives.map_values(|l: LiveWindowView| live_line(l))),
    {
        let ghost start = out@;
        let ghost lines = self@.lives.map_values(|l: LiveWindowView| live_line(l));
        let mut i: usize = 0;
        while i < self.lives.len()
            invariant
                i <= self.lives.len(),
                lines == self@.lives.map_values(|l: LiveWindowView| live_line(l)),
                out@ == start + concat_all(lines.take(i as int)),
            decreases self.lives.len() - i,
        {
            let live = &self.lives[i];
            let ghost before = out@;
            out.append("  ");
            push_padded(out, live.handle.as_str(), 8);
            out.append(" #");
            let id_text = crate::text::decimal_text(live.window.window_id as u64);
            push_padded(out, id_text.as_str(), 3);
            out.append(" ");
            push_padded(out, live.window.app_name.as_str(), 10);
            out.append(" ");
            let mut title = String::from_str("\"");
            title.append(live.window.window_title.as_str());
            title.append("\"");
            push_padded(out, title.as_str(), 24);
            out.append(" now on ");
            out.append(live.window.workspace.as_str());
            out.append("\n");
            proof {
                assert(self@.lives[i as int] == live@);
                assert(out@ =~= before + live_line(live@));
                let prefix = lines.take(i + 1);
                assert(prefix.drop_last() =~= lines.take(i as int));
                assert(prefix.last() == live_line(live@));
            }
            i = i + 1;
        }
        assert(lines.take(i as int) =~= lines);
    }

    fn push_workspace_lines(&self, out: &mut String)
        ensures
            final(out)@ == old(out)@ + concat_all(self@.stage.workspaces.map_values(|w: StageWorkspaceView| workspace_line(w))),
    {
        let ghost start = out@;
        let ghost lines = self@.stage.workspaces.map_values(|w: StageWorkspaceView| workspace_line(w));
        let mut i: usize = 0;
        while i < self.stage.workspaces.len()
            invariant
                i <= self.stage.workspaces.len(),
                lines == self@.stage.workspaces.map_values(|w: StageWorkspaceView| workspace_line(w)),
                out@ == start + concat_all(lines.take(i as int)),
            decreases self.stage.workspaces.len() - i,
        {
            let workspace = &self.stage.workspaces[i];
            let ghost before = out@;
            let mut claims: Vec<String> = Vec::new();
            let mut j: usize = 0;
            while j < workspace.windows.len()
                invariant
                    j <= workspace.windows.len(),
                    string_texts(claims@) == workspace@.windows.take(j as int).map_values(|w: StageWindowView| claim_text(w)),
                decreases workspace.windows.len() - j,
            {
                let window = &workspace.windows[j];
                let mut claim = String::new();
                match &window.app {
                    Some(app) => claim.append(app.as_str()),
                    None => claim.append("*"),
                }
                match &window.title {
                    Some(title) => {
                        claim.append(" \"");
                        claim.append(title.as_str());
                        claim.append("\"");
                    },
                    None => {},
                }
                proof {
                    reveal_strlit(" \"");
                    reveal_strlit(" ");
                    reveal_strlit("\"");
                    assert(workspace@.windows[j as int] == window@);
                    assert(claim@ =~= claim_text(window@));
                }
                let ghost claims_before = claims@;
                claims.push(claim);
                assert(string_texts(claims@) =~= string_texts(claims_before).push(claim@));
                assert(workspace@.windows.take(j + 1).map_values(|w: StageWindowView| claim_text(w))
                    =~= workspace@.windows.take(j as int).map_values(|w: StageWindowView| claim_text(w)).push(claim_text(window@)));
                j = j + 1;
            }
            assert(workspace@.windows.take(j as int) =~= workspace@.windows);
            out.append("  ");
            out.append(workspace.name.as_str());
            out.append(": ");
            push_joined(out, &claims, ", ");
            out.append("\n");
            proof {
                assert(self@.stage.workspaces[i as int] == workspace@);
                assert(out@ =~= before + workspace_line(workspace@));
                let prefix = lines.take(i + 1);
                assert(prefix.drop_last() =~= lines.take(i as int));
                assert(prefix.last() == workspace_line(workspace@));
            }
            i = i + 1;
        }
        assert(lines.take(i as int) =~= lines);
    }
}

/// The matches that are fallbacks, or those that are not.
pub open spec fn section_filter(stage: StageView, fallbacks: bool) -> spec_fn(ResolvedWindowMatchView) -> bool {
    if fallbacks { fallback_of(stage) } else { not_fallback(stage) }
}

impl ScenarioResult {
    fn push_match_section(&self, out: &mut String, label: &str, fallbacks: bool)
        ensures
            final(out)@ == old(out)@ + match_section(label@, self@.lives, self@.resolved.filter(section_filter(self@.stage, fallbacks))),
    {
        let ghost pred = section_filter(self@.stage, fallbacks);
        let mut chosen: Vec<&ResolvedWindowMatch> = Vec::new();
        let mut i: usize = 0;
        while i < self.resolved.len()
            invariant
                i <= self.resolved.len(),
                pred == section_filter(self@.stage, fallbacks),
                chosen.deep_view() == self@.resolved.take(i as int).filter(pred),
            decreases self.resolved.len() - i,
        {
            let m = &self.resolved[i];
            proof {
                assert(self@.resolved[i as int] == m@);
                assert(self@.resolved.take(i + 1) =~= self@.resolved.take(i as int).push(m@));
                self@.resolved.take(i as int).lemma_filter_push(m@, pred);
            }
            if self.is_fallback(m) == fallbacks {
                let ghost before = chosen.deep_view();
                chosen.push(m);
                assert(chosen.deep_view() =~= before.push(m@));
            }
            i = i + 1;
        }
        assert(self@.resolved.take(i as int) =~= self@.resolved);
        if chosen.len() == 0 {
            out.append(label);
            out.append("(none)\n");
            return;
        }
        let ghost start = out@;
        let ghost lines = chosen.deep_view().map_values(|m: ResolvedWindowMatchView| match_line(label@, self@.lives, m));
        let mut k: usize = 0;
        while k < chosen.len()
            invariant
                k <= chosen.len(),
                lines == chosen.deep_view().map_values(|m: ResolvedWindowMatchView| match_line(label@, self@.lives, m)),
                out@ == start + concat_all(lines.take(k as int)),
            decreases chosen.len() - k,
        {
            let m = chosen[k];
            let ghost before = out@;
            out.append(label);
            out.append(self.handle_for(m.window_id));
            out.append(" -> ");
            out.append(m.target_workspace.as_str());
            out.append("\n");
            proof {
                assert(chosen.deep_view()[k as int] == m@);
                assert(out@ =~= before + match_line(label@, self@.lives, m@));
                let prefix = lines.take(k + 1);
                assert(prefix.drop_last() =~= lines.take(k as int));
            }
            k = k + 1;
        }
        assert(lines.take(k as int) =~= lines);
    }

    fn push_pending_section(&self, out: &mut String)
        ensures
            final(out)@ == old(out)@ + pending_section(self@.pending),
    {
        if self.pending.len() == 0 {
            out.append("  pending:  (none)\n");
            return;
        }
        let ghost start = out@;
        let ghost lines = self@.pending.map_values(|c: PendingClaimView| pending_line(c));
        let mut i: usize = 0;
        while i < self.pending.len()
            invariant
                i <= self.pending.len(),
                lines == self@.pending.map_values(|c: PendingClaimView| pending_line(c)),
                out@ == start + concat_all(lines.take(i as int)),
            decreases self.pending.len() - i,
        {
            let claim = &self.pending[i];
            let ghost before = out@;
            out.append("  pending:  ");
            match &claim.app {
                Some(app) => out.append(app.as_str()),
                None => out.append("*"),
            }
            match &claim.title {
                Some(title) => {
                    out.append(" \"");
                    out.append(title.as_str());
                    out.append("\"");
                },
                None => {},
            }
            out.append(" on ");
            out.append(claim.workspace.as_str());
            out.append("\n");
            proof {
                reveal_strlit(" \"");
                reveal_strlit(" ");
                reveal_strlit("\"");
                assert(self@.pending[i as int] == claim@);
                assert(out@ =~= before + pending_line(claim@));
                let prefix = lines.take(i + 1);
                assert(prefix.drop_last() =~= lines.take(i as int));
            }
            i = i + 1;
        }
        assert(lines.take(i as int) =~= lines);
    }

    fn push_leftover_section(&self, out: &mut String)
        ensures
            final(out)@ == old(out)@ + leftover_section(self@.lives, self@.unresolved_ids),
    {
        if self.unresolved_ids.len() == 0 {
            out.append("  leftover: (none)\n");
            return;
        }
        let mut handles: Vec<String> = Vec::new();
        let mut i: usize = 0;
        while i < self.unresolved_ids.len()
            invariant
                i <= self.unresolved_ids.len(),
                string_texts(handles@) == self@.unresolved_ids.take(i as int).map_values(|id: u32| handle_for_spec(self@.lives, id)),
            decreases self.unresolved_ids.len() - i,
        {
            let handle = String::from_str(self.handle_for(self.unresolved_ids[i]));
            let ghost before = handles@;
            handles.push(handle);
            assert(string_texts(handles@) =~= string_texts(before).push(handle@));
            assert(self@.unresolved_ids.take(i + 1).map_values(|id: u32| handle_for_spec(self@.lives, id))
                =~= self@.unresolved_ids.take(i as int).map_values(|id: u32| handle_for_spec(self@.lives, id)).push(handle@));
            i = i + 1;
        }
        assert(self@.unresolved_ids.take(i as int) =~= self@.unresolved_ids);
        out.append("  leftover: ");
        push_joined(out, &handles, ", ");
        out.append("\n");
    }

    /// The whole situation in words: the live windows, the stage, and what
    /// matching made of them (see [`dump_spec`]).
    pub fn dump(&self) -> (r: String)
        ensures
            r@ == dump_spec(self@),
    {
        let mut out = String::from_str("live:\n");
        self.push_live_lines(&mut out);
        out.append("stage:\n");
        self.push_workspace_lines(&mut out);
        match &self.stage.default_workspace {
            Some(default) => {
                out.append("  default: ");
                out.append(default.as_str());
                out.append("\n");
            },
            None => out.append("  default: (none)\n"),
        }
        out.append("result:\n");
        self.push_match_section(&mut out, "  matched:  ", false);
        self.push_pending_section(&mut out);
        self.push_leftover_section(&mut out);
        self.push_match_section(&mut out, "  fallback: ", true);
        assert(out@ =~= dump_spec(self@));
        out
    }
}

/// A failed check's message: what was expected, two line breaks, and the
/// dump.
pub open spec fn with_dump(message: Seq<char>, r: ScenarioResultView) -> Seq<char> {
    message + "\n\n"@ + dump_spec(r)
}

/// What a check answers: the result itself where the check holds
/// (`outcome` is `None`), else its message with the dump.
pub open spec fn check_result(r: Result<&ScenarioResult, String>, this: &ScenarioResult, outcome: Option<Seq<char>>) -> bool {
    match r {
        Ok(s) => s == this && outcome is None,
        Err(message) => outcome is Some && message@ == with_dump(outcome->0, this@),
    }
}

/// The message for a handle that no live window goes by.
pub open spec fn unknown_handle_message(handle: Seq<char>) -> Seq<char> {
    "unknown live window handle `"@ + handle + "`"@
}

/// Whether `handle`'s window was matched to `workspace`: `None`, or why
/// not.
pub open spec fn matched_outcome(r: ScenarioResultView, handle: Seq<char>, workspace: Seq<char>) -> Option<Seq<char>> {
    match live_by_handle(r.lives, handle) {
        None => Some(unknown_handle_message(handle)),
        Some(live) => match match_of(r.resolved, live.window.window_id) {
            Some(m) => if m.target_workspace == workspace {
                None
            } else {
                Some("expected `"@ + handle + "` to match workspace `"@ + workspace + "`, got `"@ + m.target_workspace + "`"@)
            },
            None => Some("expected `"@ + handle + "` to match workspace `"@ + workspace + "`, but it was not resolved"@),
        },
    }
}

/// `true` or `false` in words.
pub open spec fn bool_text(b: bool) -> Seq<char> {
    if b { "true"@ } else { "false"@ }
}

/// Whether `handle`'s window fell back to `workspace`: `None`, or why not.
pub open spec fn fallback_outcome(r: ScenarioResultView, handle: Seq<char>, workspace: Seq<char>) -> Option<Seq<char>> {
    match live_by_handle(r.lives, handle) {
        None => Some(unknown_handle_message(handle)),
        Some(live) => match match_of(r.resolved, live.window.window_id) {
            Some(m) => if m.target_workspace == workspace && is_fallback_spec(r.stage, m) {
                None
            } else {
                Some("expected `"@ + handle + "` to fall back to `"@ + workspace + "`, got workspace `"@ + m.target_workspace
                    + "` (fallback="@ + bool_text(is_fallback_spec(r.stage, m)) + ")"@)
            },
            None => Some("expected `"@ + handle + "` to fall back to `"@ + workspace + "`, but it was not resolved"@),
        },
    }
}

/// Whether some waiting entry is titled `title`: `None`, or why not.
pub open spec fn pending_title_outcome(r: ScenarioResultView, title: Seq<char>) -> Option<Seq<char>> {
    if exists|i: int| 0 <= i < r.pending.len() && #[trigger] r.pending[i].title == Some(title) {
        None
    } else {
        Some("expected a pending stage claim with title `"@ + title + "`"@)
    }
}

/// Whether some waiting entry names `app`: `None`, or why not.
pub open spec fn pending_app_outcome(r: ScenarioResultView, app: App) -> Option<Seq<char>> {
    if exists|i: int| 0 <= i < r.pending.len() && #[trigger] r.pending[i].app == Some(app_name(app)) {
        None
    } else {
        Some("expected a pending stage claim for app `"@ + app_name(app) + "`"@)
    }
}

/// Whether `handle`'s window was left where it is: `None`, or why not.
pub open spec fn unresolved_outcome(r: ScenarioResultView, handle: Seq<char>) -> Option<Seq<char>> {
    match live_by_handle(r.lives, handle) {
        None => Some(unknown_handle_message(handle)),
        Some(live) => if r.unresolved_ids.contains(live.window.window_id) {
            None
        } else {
            Some("expected `"@ + handle + "` to remain unresolved"@)
        },
    }
}

/// Whether no entry is waiting: `None`, or why not.
pub open spec fn pending_empty_outcome(r: ScenarioResultView) -> Option<Seq<char>> {
    if r.pending.len() == 0 { None } else { Some("expected no pending stage claims"@) }
}

/// Whether every live window was placed: `None`, or why not.
pub open spec fn unresolved_empty_outcome(r: ScenarioResultView) -> Option<Seq<char>> {
    if r.unresolved_ids.len() == 0 { None } else { Some("expected no unresolved live windows"@) }
}

/// Concatenates parts of a message.
fn concat_texts(parts: &Vec<&str>) -> (r: String)
    ensures
        r@ == concat_all(parts@.map_values(|p: &str| p@)),
{
    let ghost all = parts@.map_values(|p: &str| p@);
    let mut out = String::new();
    let mut i: usize = 0;
    while i < parts.len()
        invariant
            i <= parts.len(),
            all == parts@.map_values(|p: &str| p@),
            out@ == concat_all(all.take(i as int)),
        decreases parts.len() - i,
    {
        out.append(parts[i]);
        proof {
            let prefix = all.take(i + 1);
            assert(prefix.drop_last() =~= all.take(i as int));
            assert(prefix.last() == parts@[i as int]@);
        }
        i = i + 1;
    }
    assert(all.take(i as int) =~= all);
    out
}

impl ScenarioResult {
    fn fail(&self, message: String) -> (r: String)
        ensures
            r@ == with_dump(message@, self@),
    {
        let mut out = message;
        out.append("\n\n");
        let dump = self.dump();
        out.append(dump.as_str());
        out
    }

    fn unknown_handle(&self, handle: &str) -> (r: String)
        ensures
            r@ == with_dump(unknown_handle_message(handle@), self@),
    {
        let parts = vec!["unknown live window handle `", handle, "`"];
        let message = concat_texts(&parts);
        assert(parts@.map_values(|p: &str| p@) =~= seq!["unknown live window handle `"@, handle@, "`"@]);
        assert(concat_all(seq!["unknown live window handle `"@, handle@, "`"@]) =~= unknown_handle_message(handle@)) by {
            reveal_with_fuel(concat_all, 4);
        }
        self.fail(message)
    }

    /// Checks that the window known as `handle` was matched to `workspace`.
    pub fn matched(&self, handle: &str, workspace: &str) -> (r: Result<&Self, String>)
        ensures
            check_result(r, self, matched_outcome(self@, handle@, workspace@)),
    {
        let live = match self.find_live(handle) {
            Some(live) => live,
            None => {
                return Err(self.unknown_handle(handle));
            },
        };
        match self.find_match(live.window.window_id) {
            Some(m) => {
                if crate::text::text_eq(m.target_workspace.as_str(), workspace) {
                    Ok(self)
                } else {
                    let parts = vec!["expected `", handle, "` to match workspace `", workspace, "`, got `", m.target_workspace.as_str(), "`"];
                    let message = concat_texts(&parts);
                    proof {
                        let texts = seq!["expected `"@, handle@, "` to match workspace `"@, workspace@, "`, got `"@, m.target_workspace@, "`"@];
                        assert(parts@.map_values(|p: &str| p@) =~= texts);
                        reveal_with_fuel(concat_all, 8);
                        assert(concat_all(texts) =~= "expected `"@ + handle@ + "` to match workspace `"@ + workspace@ + "`, got `"@ + m.target_workspace@ + "`"@);
                    }
                    Err(self.fail(message))
                }
            },
            None => {
                let parts = vec!["expected `", handle, "` to match workspace `", workspace, "`, but it was not resolved"];
                let message = concat_texts(&parts);
                proof {
                    let texts = seq!["expected `"@, handle@, "` to match workspace `"@, workspace@, "`, but it was not resolved"@];
                    assert(parts@.map_values(|p: &str| p@) =~= texts);
                    reveal_with_fuel(concat_all, 6);
                    assert(concat_all(texts) =~= "expected `"@ + handle@ + "` to match workspace `"@ + workspace@ + "`, but it was not resolved"@);
                }
                Err(self.fail(message))
            },
        }
    }

    /// Checks that the window known as `handle` fell back to `workspace`,
    /// the stage's default workspace.
    pub fn fallback(&self, handle: &str, workspace: &str) -> (r: Result<&Self, String>)
        ensures
            check_result(r, self, fallback_outcome(self@, handle@, workspace@)),
    {
        let live = match self.find_live(handle) {
            Some(live) => live,
            None => {
                return Err(self.unknown_handle(handle));
            },
        };
        match self.find_match(live.window.window_id) {
            Some(m) => {
                let is_fallback = self.is_fallback(m);
                if crate::text::text_eq(m.target_workspace.as_str(), workspace) && is_fallback {
                    Ok(self)
                } else {
                    let flag = if is_fallback { "true" } else { "false" };
                    let parts = vec!["expected `", handle, "` to fall back to `", workspace, "`, got workspace `", m.target_workspace.as_str(), "` (fallback=", flag, ")"];
                    let message = concat_texts(&parts);
                    proof {
                        let texts = seq!["expected `"@, handle@, "` to fall back to `"@, workspace@, "`, got workspace `"@, m.target_workspace@, "` (fallback="@, flag@, ")"@];
                        assert(parts@.map_values(|p: &str| p@) =~= texts);
                        assert(flag@ == bool_text(is_fallback));
                        reveal_with_fuel(concat_all, 10);
                        assert(concat_all(texts) =~= "expected `"@ + handle@ + "` to fall back to `"@ + workspace@ + "`, got workspace `"@ + m.target_workspace@
                            + "` (fallback="@ + flag@ + ")"@);
                    }
                    Err(self.fail(message))
                }
            },
            None => {
                let parts = vec!["expected `", handle, "` to fall back to `", workspace, "`, but it was not resolved"];
                let message = concat_texts(&parts);
                proof {
                    let texts = seq!["expected `"@, handle@, "` to fall back to `"@, workspace@, "`, but it was not resolved"@];
                    assert(parts@.map_values(|p: &str| p@) =~= texts);
                    reveal_with_fuel(concat_all, 6);
                    assert(concat_all(texts) =~= "expected `"@ + handle@ + "` to fall back to `"@ + workspace@ + "`, but it was not resolved"@);
                }
                Err(self.fail(message))
            },
        }
    }

    /// Checks that some entry titled `title` is still waiting.
    pub fn pending_title(&self, title: &str) -> (r: Result<&Self, String>)
        ensures
            check_result(r, self, pending_title_outcome(self@, title@)),
    {
        let mut i: usize = 0;
        while i < self.pending.len()
            invariant
                i <= self.pending.len(),
                forall|j: int| 0 <= j < i ==> #[trigger] self@.pending[j].title != Some(title@),
            decreases self.pending.len() - i,
        {
            let found = match &self.pending[i].title {
                Some(t) => crate::text::text_eq(t.as_str(), title),
                None => false,
            };
            assert(self@.pending[i as int] == self.pending@[i as int]@);
            if found {
                assert(self@.pending[i as int].title == Some(title@));
                return Ok(self);
            }
            i = i + 1;
        }
        let parts = vec!["expected a pending stage claim with title `", title, "`"];
        let message = concat_texts(&parts);
        proof {
            let texts = seq!["expected a pending stage claim with title `"@, title@, "`"@];
            assert(parts@.map_values(|p: &str| p@) =~= texts);
            reveal_with_fuel(concat_all, 4);
            assert(concat_all(texts) =~= "expected a pending stage claim with title `"@ + title@ + "`"@);
        }
        Err(self.fail(message))
    }

    /// Checks that some entry for `app` is still waiting.
    pub fn pending_app(&self, app: App) -> (r: Result<&Self, String>)
        ensures
            check_result(r, self, pending_app_outcome(self@, app)),
    {
        let name = app.name();
        let mut i: usize = 0;
        while i < self.pending.len()
            invariant
                i <= self.pending.len(),
                name@ == app_name(app),
                forall|j: int| 0 <= j < i ==> #[trigger] self@.pending[j].app != Some(app_name(app)),
            decreases self.pending.len() - i,
        {
            let found = match &self.pending[i].app {
                Some(a) => crate::text::text_eq(a.as_str(), name),
                None => false,
            };
            assert(self@.pending[i as int] == self.pending@[i as int]@);
            if found {
                assert(self@.pending[i as int].app == Some(app_name(app)));
                return Ok(self);
            }
            i = i + 1;
        }
        let parts = vec!["expected a pending stage claim for app `", name, "`"];
        let message = concat_texts(&parts);
        proof {
            let texts = seq!["expected a pending stage claim for app `"@, name@, "`"@];
            assert(parts@.map_values(|p: &str| p@) =~= texts);
            reveal_with_fuel(concat_all, 4);
            assert(concat_all(texts) =~= "expected a pending stage claim for app `"@ + name@ + "`"@);
        }
        Err(self.fail(message))
    }

    /// Checks that the window known as `handle` was left where it is.
    pub fn unresolved(&self, handle: &str) -> (r: Result<&Self, String>)
        ensures
            check_result(r, self, unresolved_outcome(self@, handle@)),
    {
        let live = match self.find_live(handle) {
            Some(live) => live,
            None => {
                return Err(self.unknown_handle(handle));
            },
        };
        let window_id = live.window.window_id;
        let mut i: usize = 0;
        while i < self.unresolved_ids.len()
            invariant
                i <= self.unresolved_ids.len(),
                live_by_handle(self@.lives, handle@) == Some(live@),
                window_id == live@.window.window_id,
                forall|j: int| 0 <= j < i ==> #[trigger] self@.unresolved_ids[j] != window_id,
            decreases self.unresolved_ids.len() - i,
        {
            if self.unresolved_ids[i] == window_id {
                assert(self@.unresolved_ids[i as int] == window_id);
                assert(self@.unresolved_ids.contains(window_id));
                return Ok(self);
            }
            i = i + 1;
        }
        let parts = vec!["expected `", handle, "` to remain unresolved"];
        let message = concat_texts(&parts);
        proof {
            let texts = seq!["expected `"@, handle@, "` to remain unresolved"@];
            assert(parts@.map_values(|p: &str| p@) =~= texts);
            reveal_with_fuel(concat_all, 4);
            assert(concat_all(texts) =~= "expected `"@ + handle@ + "` to remain unresolved"@);
        }
        Err(self.fail(message))
    }

    /// Checks that no entry is still waiting.
    pub fn pending_empty(&self) -> (r: Result<&Self, String>)
        ensures
            check_result(r, self, pending_empty_outcome(self@)),
    {
        if self.pending.len() == 0 {
            Ok(self)
        } else {
            Err(self.fail(String::from_str("expected no pending stage claims")))
        }
    }

    /// Checks that every live window was placed.
    pub fn unresolved_empty(&self) -> (r: Result<&Self, String>)
        ensures
            check_result(r, self, unresolved_empty_outcome(self@)),
    {
        if self.unresolved_ids.len() == 0 {
            Ok(self)
        } else {
            Err(self.fail(String::from_str("expected no unresolved live windows")))
        }
    }
}

} // verus!
