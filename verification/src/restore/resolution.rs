//! Matching the live windows to the entries of a stage: the rules are tried
//! in order, round after round, until a round binds nothing more; then the
//! windows that no open entry could claim go to the stage's default
//! workspace, if it has one.

use vstd::prelude::*;

use crate::aerospace::types::{AerospaceWindow, AerospaceWindowView, AerospaceWorkspaceId};
use crate::restore::rule::{lemma_sole_match_picks, resolved_for, sole_match, WindowResolverRule};
use crate::restore::rules::app_identity::{UniqueAppNameResolverRule, UniqueBundleIdResolverRule};
use crate::restore::rules::title_match::{is_most_similar, same_title, TitleMatchResolverRule, TitleSimilarityResolverRule};
use crate::restore::rules::workspace::TargetWorkspaceResolverRule;
use crate::restore::types::{
    claims_app, ResolveTarget, ResolveTargetView, ResolvedWindowMatch, ResolvedWindowMatchView,
    UnresolvedWindow,
};
use crate::stage::{Stage, StageView, StageWindowView, StageWorkspaceView};

verus! {

/// One of the rules that the resolver tries.
pub enum ResolverRule {
    TitleMatch(TitleMatchResolverRule),
    TitleSimilarity(TitleSimilarityResolverRule),
    TargetWorkspace(TargetWorkspaceResolverRule),
    UniqueBundleId(UniqueBundleIdResolverRule),
    UniqueAppName(UniqueAppNameResolverRule),
}

impl WindowResolverRule for ResolverRule {
    open spec fn accepts(&self, target: ResolveTargetView, window: AerospaceWindowView) -> bool {
        match self {
            ResolverRule::TitleMatch(r) => r.accepts(target, window),
            ResolverRule::TitleSimilarity(r) => r.accepts(target, window),
            ResolverRule::TargetWorkspace(r) => r.accepts(target, window),
            ResolverRule::UniqueBundleId(r) => r.accepts(target, window),
            ResolverRule::UniqueAppName(r) => r.accepts(target, window),
        }
    }

    /// The answer of the rule that this one is.
    open spec fn answer(&self, windows: Seq<AerospaceWindowView>, target: ResolveTargetView) -> Option<ResolvedWindowMatchView> {
        match self {
            ResolverRule::TitleMatch(r) => r.answer(windows, target),
            ResolverRule::TitleSimilarity(r) => r.answer(windows, target),
            ResolverRule::TargetWorkspace(r) => r.answer(windows, target),
            ResolverRule::UniqueBundleId(r) => r.answer(windows, target),
            ResolverRule::UniqueAppName(r) => r.answer(windows, target),
        }
    }

    fn match_window(&self, windows: &[AerospaceWindow], target: &ResolveTarget) -> (r: Option<ResolvedWindowMatch>) {
        match self {
            ResolverRule::TitleMatch(r) => r.match_window(windows, target),
            ResolverRule::TitleSimilarity(r) => r.match_window(windows, target),
            ResolverRule::TargetWorkspace(r) => r.match_window(windows, target),
            ResolverRule::UniqueBundleId(r) => r.match_window(windows, target),
            ResolverRule::UniqueAppName(r) => r.match_window(windows, target),
        }
    }
}

/// The similarity, in hundredths, from which the resolver counts two
/// titles as similar.
pub const TITLE_SIMILARITY_THRESHOLD: u32 = 75;

/// The rules in the order in which the resolver tries them: same title,
/// similar title, already on the target workspace, unique bundle id, unique
/// application name.
pub open spec fn resolver_rules() -> Seq<ResolverRule> {
    seq![
        ResolverRule::TitleMatch(TitleMatchResolverRule {}),
        ResolverRule::TitleSimilarity(TitleSimilarityResolverRule { threshold: TITLE_SIMILARITY_THRESHOLD }),
        ResolverRule::TargetWorkspace(TargetWorkspaceResolverRule {}),
        ResolverRule::UniqueBundleId(UniqueBundleIdResolverRule {}),
        ResolverRule::UniqueAppName(UniqueAppNameResolverRule {}),
    ]
}

/// The answer of `rule` for `target` among `available`.
pub open spec fn rule_answer(rule: ResolverRule, available: Seq<AerospaceWindowView>, target: ResolveTargetView) -> Option<ResolvedWindowMatchView> {
    rule.answer(available, target)
}

/// A rule's answer, where it gives one, is one of the available windows
/// sent to the entry's workspace.
pub proof fn lemma_answer_picks(rule: ResolverRule, available: Seq<AerospaceWindowView>, target: ResolveTargetView)
    requires
        rule_answer(rule, available, target) is Some,
    ensures
        exists|i: int| 0 <= i < available.len() && rule_answer(rule, available, target) == Some(#[trigger] resolved_for(target, available[i])),
{
    match rule {
        ResolverRule::TitleSimilarity(r) => {
            let percent = r.threshold as nat;
            let i = choose|i: int| is_most_similar(target, available, percent, i);
            assert(rule_answer(rule, available, target) == Some(resolved_for(target, available[i])));
        },
        ResolverRule::TitleMatch(r) => lemma_sole_match_picks(available, target, |w: AerospaceWindowView| r.accepts(target, w)),
        ResolverRule::TargetWorkspace(r) => lemma_sole_match_picks(available, target, |w: AerospaceWindowView| r.accepts(target, w)),
        ResolverRule::UniqueBundleId(r) => lemma_sole_match_picks(available, target, |w: AerospaceWindowView| r.accepts(target, w)),
        ResolverRule::UniqueAppName(r) => lemma_sole_match_picks(available, target, |w: AerospaceWindowView| r.accepts(target, w)),
    }
}

/// Whether a window's id differs from `id`.
pub open spec fn other_than(id: u32) -> spec_fn(AerospaceWindowView) -> bool {
    |w: AerospaceWindowView| w.window_id != id
}

/// `available` without the windows whose id is `id`.
pub open spec fn without_window(available: Seq<AerospaceWindowView>, id: u32) -> Seq<AerospaceWindowView> {
    available.filter(other_than(id))
}

/// Where matching stands: the entries still waiting for a window, the
/// windows not taken yet, and the matches made.
pub struct Progress {
    pub pending: Seq<ResolveTargetView>,
    pub available: Seq<AerospaceWindowView>,
    pub resolved: Seq<ResolvedWindowMatchView>,
}

/// One pass of `rule` over the waiting entries, in order: each entry that
/// the rule answers takes its window out of the available ones, so later
/// entries of the pass no longer see it; the others keep waiting.
pub open spec fn rule_pass(rule: ResolverRule, pending: Seq<ResolveTargetView>, available: Seq<AerospaceWindowView>) -> Progress
    decreases pending.len(),
{
    if pending.len() == 0 {
        Progress { pending: Seq::empty(), available, resolved: Seq::empty() }
    } else {
        let target = pending[0];
        match rule_answer(rule, available, target) {
            Some(m) => {
                let rest = rule_pass(rule, pending.drop_first(), without_window(available, m.window_id));
                Progress { pending: rest.pending, available: rest.available, resolved: seq![m] + rest.resolved }
            },
            None => {
                let rest = rule_pass(rule, pending.drop_first(), available);
                Progress { pending: seq![target] + rest.pending, available: rest.available, resolved: rest.resolved }
            },
        }
    }
}

/// One round: a pass of each rule in turn, stopping early once no entry is
/// waiting.
pub open spec fn rule_round(rules: Seq<ResolverRule>, pending: Seq<ResolveTargetView>, available: Seq<AerospaceWindowView>) -> Progress
    decreases rules.len(),
{
    if rules.len() == 0 {
        Progress { pending, available, resolved: Seq::empty() }
    } else {
        let first = rule_pass(rules[0], pending, available);
        if first.pending.len() == 0 {
            first
        } else {
            let rest = rule_round(rules.drop_first(), first.pending, first.available);
            Progress { pending: rest.pending, available: rest.available, resolved: first.resolved + rest.resolved }
        }
    }
}

/// A pass answers or keeps every entry it is given.
pub proof fn lemma_pass_counts(rule: ResolverRule, pending: Seq<ResolveTargetView>, available: Seq<AerospaceWindowView>)
    ensures
        rule_pass(rule, pending, available).pending.len() + rule_pass(rule, pending, available).resolved.len() == pending.len(),
    decreases pending.len(),
{
    if pending.len() > 0 {
        match rule_answer(rule, available, pending[0]) {
            Some(m) => lemma_pass_counts(rule, pending.drop_first(), without_window(available, m.window_id)),
            None => lemma_pass_counts(rule, pending.drop_first(), available),
        }
    }
}

/// A round answers or keeps every entry it is given.
pub proof fn lemma_round_counts(rules: Seq<ResolverRule>, pending: Seq<ResolveTargetView>, available: Seq<AerospaceWindowView>)
    ensures
        rule_round(rules, pending, available).pending.len() + rule_round(rules, pending, available).resolved.len() == pending.len(),
    decreases rules.len(),
{
    if rules.len() > 0 {
        lemma_pass_counts(rules[0], pending, available);
        let first = rule_pass(rules[0], pending, available);
        if first.pending.len() > 0 {
            lemma_round_counts(rules.drop_first(), first.pending, first.available);
        }
    }
}

/// Rounds until one binds nothing more.
pub open spec fn rule_rounds(rules: Seq<ResolverRule>, pending: Seq<ResolveTargetView>, available: Seq<AerospaceWindowView>) -> Progress
    decreases pending.len(),
{
    let round = rule_round(rules, pending, available);
    if round.pending.len() == pending.len() {
        round
    } else {
        proof {
            lemma_round_counts(rules, pending, available);
        }
        let rest = rule_rounds(rules, round.pending, round.available);
        Progress { pending: rest.pending, available: rest.available, resolved: round.resolved + rest.resolved }
    }
}

/// Whether an entry still waiting could claim `window` for its application.
pub open spec fn claimed_by_pending(pending: Seq<ResolveTargetView>, window: AerospaceWindowView) -> bool {
    exists|k: int| 0 <= k < pending.len() && claims_app(#[trigger] pending[k].window, window)
}

/// Whether no waiting entry could claim a window.
pub open spec fn unclaimed(pending: Seq<ResolveTargetView>) -> spec_fn(AerospaceWindowView) -> bool {
    |w: AerospaceWindowView| !claimed_by_pending(pending, w)
}

/// Whether some waiting entry could claim a window.
pub open spec fn claimed(pending: Seq<ResolveTargetView>) -> spec_fn(AerospaceWindowView) -> bool {
    |w: AerospaceWindowView| claimed_by_pending(pending, w)
}

/// A window sent to `workspace`.
pub open spec fn sent_to(workspace: Seq<char>) -> spec_fn(AerospaceWindowView) -> ResolvedWindowMatchView {
    |w: AerospaceWindowView| ResolvedWindowMatchView { target_workspace: workspace, window_id: w.window_id }
}

/// The windows left over that no waiting entry could claim, sent to
/// `workspace`.
pub open spec fn fallback_moves(pending: Seq<ResolveTargetView>, available: Seq<AerospaceWindowView>, workspace: Seq<char>) -> Seq<ResolvedWindowMatchView> {
    available.filter(unclaimed(pending)).map_values(sent_to(workspace))
}

/// The windows left over that some waiting entry could claim.
pub open spec fn fallback_keeps(pending: Seq<ResolveTargetView>, available: Seq<AerospaceWindowView>) -> Seq<AerospaceWindowView> {
    available.filter(claimed(pending))
}

/// The entries of a stage, workspace after workspace, each window entry
/// with its workspace.
pub open spec fn stage_targets(workspaces: Seq<StageWorkspaceView>) -> Seq<ResolveTargetView>
    decreases workspaces.len(),
{
    if workspaces.len() == 0 {
        Seq::empty()
    } else {
        let ws = workspaces.last();
        stage_targets(workspaces.drop_last()) + ws.windows.map_values(entry_of(ws))
    }
}

/// A window entry of `workspace` as an entry waiting for a window.
pub open spec fn entry_of(workspace: StageWorkspaceView) -> spec_fn(StageWindowView) -> ResolveTargetView {
    |w: StageWindowView| ResolveTargetView { workspace, window: w }
}

/// The ids of windows.
pub open spec fn window_ids(windows: Seq<AerospaceWindowView>) -> Seq<u32> {
    windows.map_values(|w: AerospaceWindowView| w.window_id)
}

/// What resolving yields: the matches (rule matches first, then the
/// windows sent to the default workspace), the entries no window was found
/// for, and the ids of the live windows left where they are.
pub struct ResolutionView {
    pub resolved: Seq<ResolvedWindowMatchView>,
    pub pending: Seq<ResolveTargetView>,
    pub unresolved: Seq<u32>,
}

/// The matching of `windows` to the entries of `stage`.
pub open spec fn resolve_spec(stage: StageView, windows: Seq<AerospaceWindowView>) -> ResolutionView {
    let matched = rule_rounds(resolver_rules(), stage_targets(stage.workspaces), windows);
    match stage.default_workspace {
        Some(workspace) => ResolutionView {
            resolved: matched.resolved + fallback_moves(matched.pending, matched.available, workspace),
            pending: matched.pending,
            unresolved: window_ids(fallback_keeps(matched.pending, matched.available)),
        },
        None => ResolutionView {
            resolved: matched.resolved,
            pending: matched.pending,
            unresolved: window_ids(matched.available),
        },
    }
}

/// Takes the windows whose id is `id` out of `available`.
fn remove_window(available: &mut Vec<AerospaceWindow>, id: u32)
    ensures
        final(available).deep_view() == without_window(old(available).deep_view(), id),
{
    let ghost before = available.deep_view();
    let mut kept: Vec<AerospaceWindow> = Vec::new();
    let mut i: usize = 0;
    while i < available.len()
        invariant
            i <= available.len(),
            before == available.deep_view(),
            kept.deep_view() == available.deep_view().take(i as int).filter(other_than(id)),
        decreases available.len() - i,
    {
        let w = &available[i];
        proof {
            assert(available.deep_view().take(i + 1) =~= available.deep_view().take(i as int).push(w@));
            available.deep_view().take(i as int).lemma_filter_push(w@, other_than(id));
        }
        if w.window_id != id {
            let copy = w.duplicate();
            kept.push(copy);
            assert(kept.deep_view() =~= available.deep_view().take(i + 1).filter(other_than(id)));
        }
        i = i + 1;
    }
    assert(available.deep_view().take(i as int) =~= available.deep_view());
    *available = kept;
}

/// One pass of `rule` over `pending` (see [`rule_pass`]): the matches are
/// appended to `resolved`, the matched windows taken out of `available`, and
/// the entries left waiting returned.
fn apply_rule<'a>(
    rule: &ResolverRule,
    pending: &Vec<ResolveTarget<'a>>,
    available: &mut Vec<AerospaceWindow>,
    resolved: &mut Vec<ResolvedWindowMatch>,
) -> (remaining: Vec<ResolveTarget<'a>>)
    ensures
        remaining.deep_view() == rule_pass(*rule, pending.deep_view(), old(available).deep_view()).pending,
        final(available).deep_view() == rule_pass(*rule, pending.deep_view(), old(available).deep_view()).available,
        final(resolved).deep_view() == old(resolved).deep_view() + rule_pass(*rule, pending.deep_view(), old(available).deep_view()).resolved,
{
    let ghost whole = rule_pass(*rule, pending.deep_view(), available.deep_view());
    let ghost resolved_before = resolved.deep_view();
    let mut remaining: Vec<ResolveTarget<'a>> = Vec::new();
    let mut i: usize = 0;
    assert(pending.deep_view().skip(0) =~= pending.deep_view());
    assert(remaining.deep_view() + whole.pending =~= whole.pending);
    while i < pending.len()
        invariant
            i <= pending.len(),
            whole.pending == remaining.deep_view() + rule_pass(*rule, pending.deep_view().skip(i as int), available.deep_view()).pending,
            whole.available == rule_pass(*rule, pending.deep_view().skip(i as int), available.deep_view()).available,
            resolved_before + whole.resolved == resolved.deep_view() + rule_pass(*rule, pending.deep_view().skip(i as int), available.deep_view()).resolved,
        decreases pending.len() - i,
    {
        let target = pending[i];
        let ghost rest = pending.deep_view().skip(i as int);
        proof {
            assert(rest[0] == target@);
            assert(rest.drop_first() =~= pending.deep_view().skip(i + 1));
        }
        let live = available.as_slice();
        let answer = rule.match_window(live, &target);
        proof {
            assert(live.deep_view() =~= available.deep_view());
        }
        match answer {
            Some(m) => {
                let ghost avail_before = available.deep_view();
                let ghost res_before = resolved.deep_view();
                remove_window(available, m.window_id);
                resolved.push(m);
                proof {
                    let next = rule_pass(*rule, pending.deep_view().skip(i + 1), available.deep_view());
                    assert(resolved.deep_view() =~= res_before.push(m@));
                    assert(seq![m@] + next.resolved =~= seq![m@] + next.resolved);
                    assert(res_before + (seq![m@] + next.resolved) =~= res_before.push(m@) + next.resolved);
                }
            },
            None => {
                let ghost rem_before = remaining.deep_view();
                remaining.push(target);
                proof {
                    let next = rule_pass(*rule, pending.deep_view().skip(i + 1), available.deep_view());
                    assert(remaining.deep_view() =~= rem_before.push(target@));
                    assert(rem_before + (seq![target@] + next.pending) =~= rem_before.push(target@) + next.pending);
                }
            },
        }
        i = i + 1;
    }
    proof {
        assert(pending.deep_view().skip(i as int) =~= Seq::<ResolveTargetView>::empty());
        assert(remaining.deep_view() + Seq::<ResolveTargetView>::empty() =~= remaining.deep_view());
        assert(resolved.deep_view() + Seq::<ResolvedWindowMatchView>::empty() =~= resolved.deep_view());
    }
    remaining
}

/// One round of `rules` (see [`rule_round`]).
fn apply_round<'a>(
    rules: &Vec<ResolverRule>,
    pending: Vec<ResolveTarget<'a>>,
    available: &mut Vec<AerospaceWindow>,
    resolved: &mut Vec<ResolvedWindowMatch>,
) -> (remaining: Vec<ResolveTarget<'a>>)
    ensures
        remaining.deep_view() == rule_round(rules@, pending.deep_view(), old(available).deep_view()).pending,
        final(available).deep_view() == rule_round(rules@, pending.deep_view(), old(available).deep_view()).available,
        final(resolved).deep_view() == old(resolved).deep_view() + rule_round(rules@, pending.deep_view(), old(available).deep_view()).resolved,
{
    let ghost whole = rule_round(rules@, pending.deep_view(), available.deep_view());
    let ghost resolved_before = resolved.deep_view();
    let mut current = pending;
    let mut k: usize = 0;
    assert(rules@.skip(0) =~= rules@);
    assert(resolved_before + whole.resolved =~= resolved.deep_view() + whole.resolved);
    while k < rules.len()
        invariant_except_break
            k <= rules.len(),
            whole.pending == rule_round(rules@.skip(k as int), current.deep_view(), available.deep_view()).pending,
            whole.available == rule_round(rules@.skip(k as int), current.deep_view(), available.deep_view()).available,
            resolved_before + whole.resolved == resolved.deep_view() + rule_round(rules@.skip(k as int), current.deep_view(), available.deep_view()).resolved,
        ensures
            whole.pending == current.deep_view(),
            whole.available == available.deep_view(),
            resolved_before + whole.resolved == resolved.deep_view(),
        decreases rules.len() - k,
    {
        let ghost rest = rules@.skip(k as int);
        let ghost avail_before = available.deep_view();
        let ghost res_before = resolved.deep_view();
        proof {
            assert(rest[0] == rules@[k as int]);
            assert(rest.drop_first() =~= rules@.skip(k + 1));
        }
        let next = apply_rule(&rules[k], &current, available, resolved);
        proof {
            let first = rule_pass(rules@[k as int], current.deep_view(), avail_before);
            assert(resolved.deep_view() == res_before + first.resolved);
            if first.pending.len() > 0 {
                let later = rule_round(rules@.skip(k + 1), first.pending, first.available);
                assert(res_before + (first.resolved + later.resolved) =~= (res_before + first.resolved) + later.resolved);
            } else {
                assert(resolved.deep_view() =~= res_before + first.resolved);
            }
        }
        current = next;
        k = k + 1;
        if current.len() == 0 {
            break;
        }
    }
    proof {
        if k == rules.len() && current.len() > 0 {
            assert(rules@.skip(k as int) =~= Seq::<ResolverRule>::empty());
            assert(resolved.deep_view() + Seq::<ResolvedWindowMatchView>::empty() =~= resolved.deep_view());
        }
    }
    assert(resolved.deep_view() =~= resolved_before + whole.resolved);
    current
}

/// Rounds of `rules` until one binds nothing more (see [`rule_rounds`]).
fn apply_resolver_rules<'a>(
    rules: &Vec<ResolverRule>,
    pending: Vec<ResolveTarget<'a>>,
    available: &mut Vec<AerospaceWindow>,
    resolved: &mut Vec<ResolvedWindowMatch>,
) -> (remaining: Vec<ResolveTarget<'a>>)
    ensures
        remaining.deep_view() == rule_rounds(rules@, pending.deep_view(), old(available).deep_view()).pending,
        final(available).deep_view() == rule_rounds(rules@, pending.deep_view(), old(available).deep_view()).available,
        final(resolved).deep_view() == old(resolved).deep_view() + rule_rounds(rules@, pending.deep_view(), old(available).deep_view()).resolved,
{
    let ghost whole = rule_rounds(rules@, pending.deep_view(), available.deep_view());
    let ghost resolved_before = resolved.deep_view();
    let mut current = pending;
    assert(resolved_before + whole.resolved =~= resolved.deep_view() + whole.resolved);
    loop
        invariant_except_break
            whole.pending == rule_rounds(rules@, current.deep_view(), available.deep_view()).pending,
            whole.available == rule_rounds(rules@, current.deep_view(), available.deep_view()).available,
            resolved_before + whole.resolved == resolved.deep_view() + rule_rounds(rules@, current.deep_view(), available.deep_view()).resolved,
        ensures
            whole.pending == current.deep_view(),
            whole.available == available.deep_view(),
            resolved_before + whole.resolved == resolved.deep_view(),
        decreases current.len(),
    {
        let initial_pending_count = current.len();
        let ghost avail_before = available.deep_view();
        let ghost res_before = resolved.deep_view();
        let ghost current_before = current.deep_view();
        let next = apply_round(rules, current, available, resolved);
        proof {
            lemma_round_counts(rules@, current_before, avail_before);
            let round = rule_round(rules@, current_before, avail_before);
            if round.pending.len() != current_before.len() {
                let later = rule_rounds(rules@, round.pending, round.available);
                assert(res_before + (round.resolved + later.resolved) =~= (res_before + round.resolved) + later.resolved);
            } else {
                assert(resolved.deep_view() =~= res_before + round.resolved);
            }
        }
        current = next;
        if current.len() == initial_pending_count {
            break;
        }
    }
    assert(resolved.deep_view() =~= resolved_before + whole.resolved);
    current
}

/// Whether some entry of `pending` could claim `window` for its application.
fn is_claimed(pending: &[ResolveTarget], window: &AerospaceWindow) -> (r: bool)
    ensures
        r == claimed_by_pending(pending.deep_view(), window@),
{
    let mut i: usize = 0;
    while i < pending.len()
        invariant
            i <= pending.len(),
            forall|k: int| 0 <= k < i ==> !claims_app(#[trigger] pending.deep_view()[k].window, window@),
        decreases pending.len() - i,
    {
        if pending[i].matches_window_app(window) {
            assert(pending.deep_view()[i as int] == pending@[i as int]@);
            assert(claims_app(pending.deep_view()[i as int].window, window@));
            return true;
        }
        assert(pending.deep_view()[i as int] == pending@[i as int]@);
        i = i + 1;
    }
    false
}

/// Sends the windows of `available` that no entry of `pending` could claim
/// to `workspace`, appending those matches to `resolved`; the others stay in
/// `available`.
fn apply_fallback(
    workspace: &String,
    resolved: &mut Vec<ResolvedWindowMatch>,
    available: &mut Vec<AerospaceWindow>,
    pending: &[ResolveTarget],
)
    ensures
        final(resolved).deep_view() == old(resolved).deep_view() + fallback_moves(pending.deep_view(), old(available).deep_view(), workspace@),
        final(available).deep_view() == fallback_keeps(pending.deep_view(), old(available).deep_view()),
{
    let ghost before = available.deep_view();
    let ghost resolved_before = resolved.deep_view();
    let ghost p = pending.deep_view();
    let mut kept: Vec<AerospaceWindow> = Vec::new();
    let mut leftover_windows: Vec<ResolvedWindowMatch> = Vec::new();
    let mut i: usize = 0;
    while i < available.len()
        invariant
            i <= available.len(),
            before == available.deep_view(),
            p == pending.deep_view(),
            kept.deep_view() == available.deep_view().take(i as int).filter(claimed(p)),
            leftover_windows.deep_view() == available.deep_view().take(i as int).filter(unclaimed(p)).map_values(sent_to(workspace@)),
        decreases available.len() - i,
    {
        let w = &available[i];
        let ghost taken = available.deep_view().take(i as int);
        proof {
            assert(available.deep_view().take(i + 1) =~= taken.push(w@));
            taken.lemma_filter_push(w@, claimed(p));
            taken.lemma_filter_push(w@, unclaimed(p));
        }
        if is_claimed(pending, w) {
            let ghost kept_before = kept.deep_view();
            kept.push(w.duplicate());
            assert(kept.deep_view() =~= kept_before.push(w@));
            assert(kept.deep_view() =~= available.deep_view().take(i + 1).filter(claimed(p)));
            assert(available.deep_view().take(i + 1).filter(unclaimed(p)) =~= taken.filter(unclaimed(p)));
        } else {
            let m = ResolvedWindowMatch { target_workspace: workspace.clone(), window_id: w.window_id };
            let ghost left_before = leftover_windows.deep_view();
            leftover_windows.push(m);
            assert(leftover_windows.deep_view() =~= left_before.push(m@));
            assert(m@ == sent_to(workspace@)(w@));
            assert(taken.filter(unclaimed(p)).push(w@).map_values(sent_to(workspace@))
                =~= taken.filter(unclaimed(p)).map_values(sent_to(workspace@)).push(m@));
            assert(available.deep_view().take(i + 1).filter(claimed(p)) =~= taken.filter(claimed(p)));
            assert(leftover_windows.deep_view() =~= available.deep_view().take(i + 1).filter(unclaimed(p)).map_values(sent_to(workspace@)));
        }
        i = i + 1;
    }
    assert(available.deep_view().take(i as int) =~= available.deep_view());
    *available = kept;
    let mut j: usize = 0;
    while j < leftover_windows.len()
        invariant
            j <= leftover_windows.len(),
            resolved.deep_view() == resolved_before + leftover_windows.deep_view().take(j as int),
        decreases leftover_windows.len() - j,
    {
        let m = ResolvedWindowMatch {
            target_workspace: leftover_windows[j].target_workspace.clone(),
            window_id: leftover_windows[j].window_id,
        };
        let ghost res_before = resolved.deep_view();
        resolved.push(m);
        assert(resolved.deep_view() =~= res_before.push(m@));
        assert(m@ == leftover_windows.deep_view()[j as int]);
        assert(leftover_windows.deep_view().take(j + 1) =~= leftover_windows.deep_view().take(j as int).push(leftover_windows@[j as int]@));
        assert(resolved.deep_view() =~= resolved_before + leftover_windows.deep_view().take(j + 1));
        j = j + 1;
    }
    assert(leftover_windows.deep_view().take(j as int) =~= leftover_windows.deep_view());
}

/// The entries of `stage` (see [`stage_targets`]).
fn stage_entries<'a>(stage: &'a Stage) -> (r: Vec<ResolveTarget<'a>>)
    ensures
        r.deep_view() == stage_targets(stage@.workspaces),
{
    let mut out: Vec<ResolveTarget<'a>> = Vec::new();
    let mut k: usize = 0;
    while k < stage.workspaces.len()
        invariant
            k <= stage.workspaces.len(),
            out.deep_view() == stage_targets(stage@.workspaces.take(k as int)),
        decreases stage.workspaces.len() - k,
    {
        let workspace = &stage.workspaces[k];
        let ghost base = out.deep_view();
        let ghost entries = workspace@.windows.map_values(entry_of(workspace@));
        let mut j: usize = 0;
        while j < workspace.windows.len()
            invariant
                j <= workspace.windows.len(),
                workspace@ == stage@.workspaces[k as int],
                entries == workspace@.windows.map_values(entry_of(workspace@)),
                out.deep_view() == base + entries.take(j as int),
            decreases workspace.windows.len() - j,
        {
            let target = ResolveTarget { target_workspace: workspace, target_window: &workspace.windows[j] };
            let ghost out_before = out.deep_view();
            out.push(target);
            assert(out.deep_view() =~= out_before.push(target@));
            assert(target@ == entry_of(workspace@)(workspace@.windows[j as int]));
            assert(entries[j as int] == target@);
            assert(workspace@.windows[j as int] == workspace.windows@[j as int]@);
            assert(entries.take(j + 1) =~= entries.take(j as int).push(target@));
            assert(out.deep_view() =~= base + entries.take(j + 1));
            j = j + 1;
        }
        proof {
            assert(entries.take(j as int) =~= entries);
            let ws = stage@.workspaces.take(k + 1);
            assert(ws.drop_last() =~= stage@.workspaces.take(k as int));
            assert(ws.last() == workspace@);
        }
        k = k + 1;
    }
    assert(stage@.workspaces.take(k as int) =~= stage@.workspaces);
    out
}

/// The resolver: the rules it tries, in order, and the workspace that
/// leftover windows go to.
struct WindowResolver {
    fallback_workspace: Option<AerospaceWorkspaceId>,
    rules: Vec<ResolverRule>,
}

impl WindowResolver {
    fn new(fallback_workspace: Option<String>) -> (r: Self)
        ensures
            r.rules@ == resolver_rules(),
            r.fallback_workspace.deep_view() == fallback_workspace.deep_view(),
    {
        let rules = vec![
            ResolverRule::TitleMatch(TitleMatchResolverRule {}),
            ResolverRule::TitleSimilarity(TitleSimilarityResolverRule { threshold: TITLE_SIMILARITY_THRESHOLD }),
            ResolverRule::TargetWorkspace(TargetWorkspaceResolverRule {}),
            ResolverRule::UniqueBundleId(UniqueBundleIdResolverRule {}),
            ResolverRule::UniqueAppName(UniqueAppNameResolverRule {}),
        ];
        assert(rules@ =~= resolver_rules());
        WindowResolver { fallback_workspace, rules }
    }

    fn resolve<'a>(&self, stage: &'a Stage, windows: &[AerospaceWindow]) -> (r: (
        Vec<ResolvedWindowMatch>,
        Vec<ResolveTarget<'a>>,
        Vec<UnresolvedWindow>,
    ))
        requires
            self.rules@ == resolver_rules(),
            self.fallback_workspace.deep_view() == stage@.default_workspace,
        ensures
            r.0.deep_view() == resolve_spec(stage@, windows.deep_view()).resolved,
            r.1.deep_view() == resolve_spec(stage@, windows.deep_view()).pending,
            r.2.deep_view() == resolve_spec(stage@, windows.deep_view()).unresolved,
    {
        let pending_targets = stage_entries(stage);
        let mut available_windows: Vec<AerospaceWindow> = Vec::new();
        let mut i: usize = 0;
        while i < windows.len()
            invariant
                i <= windows.len(),
                available_windows.deep_view() == windows.deep_view().take(i as int),
            decreases windows.len() - i,
        {
            let ghost avail_before = available_windows.deep_view();
            let copy = windows[i].duplicate();
            available_windows.push(copy);
            assert(available_windows.deep_view() =~= avail_before.push(copy@));
            assert(windows.deep_view()[i as int] == windows@[i as int]@);
            assert(available_windows.deep_view() =~= windows.deep_view().take(i + 1));
            i = i + 1;
        }
        assert(windows.deep_view().take(i as int) =~= windows.deep_view());
        let mut resolved_matches: Vec<ResolvedWindowMatch> = Vec::new();
        let pending_targets = apply_resolver_rules(&self.rules, pending_targets, &mut available_windows, &mut resolved_matches);
        assert(resolved_matches.deep_view() =~= rule_rounds(resolver_rules(), stage_targets(stage@.workspaces), windows.deep_view()).resolved);
        match &self.fallback_workspace {
            Some(workspace) => {
                let still_pending = pending_targets.as_slice();
                apply_fallback(workspace, &mut resolved_matches, &mut available_windows, still_pending);
                assert(still_pending.deep_view() =~= pending_targets.deep_view());
            },
            None => {},
        }
        let mut unresolved_windows: Vec<UnresolvedWindow> = Vec::new();
        let mut j: usize = 0;
        while j < available_windows.len()
            invariant
                j <= available_windows.len(),
                unresolved_windows.deep_view() == window_ids(available_windows.deep_view().take(j as int)),
            decreases available_windows.len() - j,
        {
            let ghost unresolved_before = unresolved_windows.deep_view();
            unresolved_windows.push(UnresolvedWindow { window_id: available_windows[j].window_id });
            assert(unresolved_windows.deep_view() =~= unresolved_before.push(available_windows@[j as int].window_id));
            assert(available_windows.deep_view()[j as int] == available_windows@[j as int]@);
            assert(unresolved_windows.deep_view() =~= window_ids(available_windows.deep_view().take(j + 1)));
            j = j + 1;
        }
        assert(available_windows.deep_view().take(j as int) =~= available_windows.deep_view());
        (resolved_matches, pending_targets, unresolved_windows)
    }
}

/// The outcome of matching the live windows to a stage.
pub struct WindowResolution<'a> {
    pub resolved_windows: Vec<ResolvedWindowMatch>,
    pub pending_targets: Vec<ResolveTarget<'a>>,
    pub unresolved_windows: Vec<UnresolvedWindow>,
}

impl<'a> View for WindowResolution<'a> {
    type V = ResolutionView;

    open spec fn view(&self) -> ResolutionView {
        ResolutionView {
            resolved: self.resolved_windows.deep_view(),
            pending: self.pending_targets.deep_view(),
            unresolved: self.unresolved_windows.deep_view(),
        }
    }
}

impl<'a> WindowResolution<'a> {
    /// Matches `windows` to the entries of `stage` (see [`resolve_spec`]).
    pub fn resolve(stage: &'a Stage, windows: &[AerospaceWindow]) -> (r: Self)
        ensures
            r@ == resolve_spec(stage@, windows.deep_view()),
    {
        let fallback = match &stage.default_workspace {
            Some(w) => Some(w.clone()),
            None => None,
        };
        let resolver = WindowResolver::new(fallback);
        let (resolved_windows, pending_targets, unresolved_windows) = resolver.resolve(stage, windows);
        WindowResolution { resolved_windows, pending_targets, unresolved_windows }
    }
}

/// The ids of the windows that matches send somewhere.
pub open spec fn match_ids(matches: Seq<ResolvedWindowMatchView>) -> Seq<u32> {
    matches.map_values(|m: ResolvedWindowMatchView| m.window_id)
}

/// Filtering windows keeps their ids apart and keeps exactly the ids of the
/// windows that pass.
pub(crate) proof fn lemma_filter_ids(s: Seq<AerospaceWindowView>, pred: spec_fn(AerospaceWindowView) -> bool)
    requires
        window_ids(s).no_duplicates(),
    ensures
        window_ids(s.filter(pred)).no_duplicates(),
        forall|id: u32| #[trigger] window_ids(s.filter(pred)).contains(id) <==>
            exists|i: int| 0 <= i < s.len() && pred(s[i]) && s[i].window_id == id,
    decreases s.len(),
{
    if s.len() == 0 {
        reveal(Seq::filter);
        assert(window_ids(s.filter(pred)) =~= Seq::<u32>::empty());
    } else {
        let t = s.drop_last();
        let l = s.last();
        assert(window_ids(t) =~= window_ids(s).drop_last());
        lemma_filter_ids(t, pred);
        assert(s =~= t.push(l));
        t.lemma_filter_push(l, pred);
        let ft = t.filter(pred);
        if pred(l) {
            assert(window_ids(s.filter(pred)) =~= window_ids(ft).push(l.window_id));
            if window_ids(ft).contains(l.window_id) {
                let i = choose|i: int| 0 <= i < t.len() && pred(t[i]) && t[i].window_id == l.window_id;
                assert(window_ids(s)[i] == window_ids(s)[s.len() - 1]);
            }
            assert forall|id: u32| #[trigger] window_ids(s.filter(pred)).contains(id) <==>
                exists|i: int| 0 <= i < s.len() && pred(s[i]) && s[i].window_id == id by {
                if window_ids(s.filter(pred)).contains(id) {
                    if id == l.window_id {
                        assert(s[s.len() - 1] == l);
                    } else {
                        let k = choose|k: int| 0 <= k < window_ids(s.filter(pred)).len() && window_ids(s.filter(pred))[k] == id;
                        assert(k < window_ids(ft).len());
                        assert(window_ids(ft)[k] == id);
                        assert(window_ids(ft).contains(id));
                        let i = choose|i: int| 0 <= i < t.len() && pred(t[i]) && t[i].window_id == id;
                        assert(s[i] == t[i]);
                    }
                }
                if exists|i: int| 0 <= i < s.len() && pred(s[i]) && s[i].window_id == id {
                    let i = choose|i: int| 0 <= i < s.len() && pred(s[i]) && s[i].window_id == id;
                    if i == s.len() - 1 {
                        assert(window_ids(s.filter(pred))[window_ids(ft).len() as int] == id);
                    } else {
                        assert(t[i] == s[i]);
                        assert(window_ids(ft).contains(id));
                        let k = choose|k: int| 0 <= k < window_ids(ft).len() && window_ids(ft)[k] == id;
                        assert(window_ids(s.filter(pred))[k] == id);
                    }
                }
            }
        } else {
            assert(s.filter(pred) == ft);
            assert forall|id: u32| #[trigger] window_ids(s.filter(pred)).contains(id) <==>
                exists|i: int| 0 <= i < s.len() && pred(s[i]) && s[i].window_id == id by {
                if window_ids(s.filter(pred)).contains(id) {
                    let i = choose|i: int| 0 <= i < t.len() && pred(t[i]) && t[i].window_id == id;
                    assert(s[i] == t[i]);
                }
                if exists|i: int| 0 <= i < s.len() && pred(s[i]) && s[i].window_id == id {
                    let i = choose|i: int| 0 <= i < s.len() && pred(s[i]) && s[i].window_id == id;
                    assert(i != s.len() - 1);
                    assert(t[i] == s[i]);
                }
            }
        }
    }
}

/// Every window id of `all_live` is either still available or matched,
/// never both, and none of them twice.
pub open spec fn accounted(all_live: Seq<AerospaceWindowView>, available: Seq<AerospaceWindowView>, resolved: Seq<ResolvedWindowMatchView>) -> bool {
    &&& window_ids(available).no_duplicates()
    &&& match_ids(resolved).no_duplicates()
    &&& forall|id: u32| #[trigger] window_ids(available).contains(id) ==> !match_ids(resolved).contains(id)
    &&& forall|id: u32| #[trigger] window_ids(all_live).contains(id) <==>
            (window_ids(available).contains(id) || match_ids(resolved).contains(id))
}

/// A rule's answer is one of the available windows.
proof fn lemma_answer_is_available(rule: ResolverRule, available: Seq<AerospaceWindowView>, target: ResolveTargetView)
    requires
        rule_answer(rule, available, target) is Some,
    ensures
        window_ids(available).contains(rule_answer(rule, available, target)->0.window_id),
{
    lemma_answer_picks(rule, available, target);
    let i = choose|i: int| 0 <= i < available.len() && rule_answer(rule, available, target) == Some(#[trigger] resolved_for(target, available[i]));
    assert(window_ids(available)[i] == available[i].window_id);
}

/// Taking a matched window out of the available ones keeps every id
/// accounted for.
proof fn lemma_take_window(all_live: Seq<AerospaceWindowView>, available: Seq<AerospaceWindowView>, resolved: Seq<ResolvedWindowMatchView>, m: ResolvedWindowMatchView)
    requires
        accounted(all_live, available, resolved),
        window_ids(available).contains(m.window_id),
    ensures
        accounted(all_live, without_window(available, m.window_id), resolved.push(m)),
{
    let x = m.window_id;
    let rest = without_window(available, x);
    lemma_filter_ids(available, other_than(x));
    assert(match_ids(resolved.push(m)) =~= match_ids(resolved).push(x));
    assert forall|id: u32| #[trigger] window_ids(rest).contains(id) <==> (window_ids(available).contains(id) && id != x) by {
        if window_ids(rest).contains(id) {
            let i = choose|i: int| 0 <= i < available.len() && other_than(x)(available[i]) && available[i].window_id == id;
            assert(window_ids(available)[i] == id);
        }
        if window_ids(available).contains(id) && id != x {
            let i = choose|i: int| 0 <= i < window_ids(available).len() && window_ids(available)[i] == id;
            assert(other_than(x)(available[i]) && available[i].window_id == id);
        }
    }
    assert forall|id: u32| #[trigger] match_ids(resolved.push(m)).contains(id) <==> (match_ids(resolved).contains(id) || id == x) by {
        let pushed = match_ids(resolved).push(x);
        if pushed.contains(id) {
            let k = choose|k: int| 0 <= k < pushed.len() && pushed[k] == id;
            if k < match_ids(resolved).len() {
                assert(match_ids(resolved)[k] == id);
            }
        }
        if match_ids(resolved).contains(id) {
            let k = choose|k: int| 0 <= k < match_ids(resolved).len() && match_ids(resolved)[k] == id;
            assert(pushed[k] == id);
        }
        if id == x {
            assert(pushed[pushed.len() - 1] == x);
        }
    }
}

/// A pass keeps every id accounted for.
proof fn lemma_pass_accounts(rule: ResolverRule, pending: Seq<ResolveTargetView>, all_live: Seq<AerospaceWindowView>, available: Seq<AerospaceWindowView>, resolved: Seq<ResolvedWindowMatchView>)
    requires
        accounted(all_live, available, resolved),
    ensures
        accounted(all_live, rule_pass(rule, pending, available).available, resolved + rule_pass(rule, pending, available).resolved),
    decreases pending.len(),
{
    if pending.len() == 0 {
        assert(resolved + Seq::<ResolvedWindowMatchView>::empty() =~= resolved);
    } else {
        match rule_answer(rule, available, pending[0]) {
            Some(m) => {
                lemma_answer_is_available(rule, available, pending[0]);
                lemma_take_window(all_live, available, resolved, m);
                lemma_pass_accounts(rule, pending.drop_first(), all_live, without_window(available, m.window_id), resolved.push(m));
                let rest = rule_pass(rule, pending.drop_first(), without_window(available, m.window_id));
                assert(resolved.push(m) + rest.resolved =~= resolved + (seq![m] + rest.resolved));
            },
            None => {
                lemma_pass_accounts(rule, pending.drop_first(), all_live, available, resolved);
            },
        }
    }
}

/// A round keeps every id accounted for.
proof fn lemma_round_accounts(rules: Seq<ResolverRule>, pending: Seq<ResolveTargetView>, all_live: Seq<AerospaceWindowView>, available: Seq<AerospaceWindowView>, resolved: Seq<ResolvedWindowMatchView>)
    requires
        accounted(all_live, available, resolved),
    ensures
        accounted(all_live, rule_round(rules, pending, available).available, resolved + rule_round(rules, pending, available).resolved),
    decreases rules.len(),
{
    if rules.len() == 0 {
        assert(resolved + Seq::<ResolvedWindowMatchView>::empty() =~= resolved);
    } else {
        lemma_pass_accounts(rules[0], pending, all_live, available, resolved);
        let first = rule_pass(rules[0], pending, available);
        if first.pending.len() > 0 {
            lemma_round_accounts(rules.drop_first(), first.pending, all_live, first.available, resolved + first.resolved);
            let rest = rule_round(rules.drop_first(), first.pending, first.available);
            assert((resolved + first.resolved) + rest.resolved =~= resolved + (first.resolved + rest.resolved));
        }
    }
}

/// Rounds keep every id accounted for.
proof fn lemma_rounds_account(rules: Seq<ResolverRule>, pending: Seq<ResolveTargetView>, all_live: Seq<AerospaceWindowView>, available: Seq<AerospaceWindowView>, resolved: Seq<ResolvedWindowMatchView>)
    requires
        accounted(all_live, available, resolved),
    ensures
        accounted(all_live, rule_rounds(rules, pending, available).available, resolved + rule_rounds(rules, pending, available).resolved),
    decreases pending.len(),
{
    lemma_round_accounts(rules, pending, all_live, available, resolved);
    lemma_round_counts(rules, pending, available);
    let round = rule_round(rules, pending, available);
    if round.pending.len() != pending.len() {
        lemma_rounds_account(rules, round.pending, all_live, round.available, resolved + round.resolved);
        let rest = rule_rounds(rules, round.pending, round.available);
        assert((resolved + round.resolved) + rest.resolved =~= resolved + (round.resolved + rest.resolved));
    }
}

/// Rounds answer or keep every entry they are given.
pub proof fn lemma_rounds_count(rules: Seq<ResolverRule>, pending: Seq<ResolveTargetView>, available: Seq<AerospaceWindowView>)
    ensures
        rule_rounds(rules, pending, available).pending.len() + rule_rounds(rules, pending, available).resolved.len() == pending.len(),
    decreases pending.len(),
{
    lemma_round_counts(rules, pending, available);
    let round = rule_round(rules, pending, available);
    if round.pending.len() != pending.len() {
        lemma_rounds_count(rules, round.pending, round.available);
    }
}

/// What a concatenation holds.
proof fn lemma_concat_contains(a: Seq<u32>, b: Seq<u32>)
    ensures
        forall|x: u32| #[trigger] (a + b).contains(x) <==> (a.contains(x) || b.contains(x)),
{
    assert forall|x: u32| #[trigger] (a + b).contains(x) <==> (a.contains(x) || b.contains(x)) by {
        if (a + b).contains(x) {
            let k = choose|k: int| 0 <= k < (a + b).len() && (a + b)[k] == x;
            if k < a.len() {
                assert(a[k] == x);
            } else {
                assert(b[k - a.len()] == x);
            }
        }
        if a.contains(x) {
            let k = choose|k: int| 0 <= k < a.len() && a[k] == x;
            assert((a + b)[k] == x);
        }
        if b.contains(x) {
            let k = choose|k: int| 0 <= k < b.len() && b[k] == x;
            assert((a + b)[a.len() + k] == x);
        }
    }
}

/// Sending the unclaimed leftovers to the default workspace keeps every id
/// accounted for, the claimed leftovers staying available.
proof fn lemma_fallback_accounts(
    all_live: Seq<AerospaceWindowView>,
    pending: Seq<ResolveTargetView>,
    available: Seq<AerospaceWindowView>,
    resolved: Seq<ResolvedWindowMatchView>,
    workspace: Seq<char>,
)
    requires
        accounted(all_live, available, resolved),
    ensures
        accounted(all_live, fallback_keeps(pending, available), resolved + fallback_moves(pending, available, workspace)),
{
    let keeps = fallback_keeps(pending, available);
    let moved = available.filter(unclaimed(pending));
    let moves = fallback_moves(pending, available, workspace);
    lemma_filter_ids(available, claimed(pending));
    lemma_filter_ids(available, unclaimed(pending));
    assert(match_ids(moves) =~= window_ids(moved));
    assert(match_ids(resolved + moves) =~= match_ids(resolved) + window_ids(moved));
    lemma_concat_contains(match_ids(resolved), window_ids(moved));
    assert forall|id: u32| #[trigger] window_ids(moved).contains(id) ==> window_ids(available).contains(id) by {
        if window_ids(moved).contains(id) {
            let i = choose|i: int| 0 <= i < available.len() && unclaimed(pending)(available[i]) && available[i].window_id == id;
            assert(window_ids(available)[i] == id);
        }
    }
    assert forall|id: u32| #[trigger] window_ids(keeps).contains(id) ==> window_ids(available).contains(id) by {
        if window_ids(keeps).contains(id) {
            let i = choose|i: int| 0 <= i < available.len() && claimed(pending)(available[i]) && available[i].window_id == id;
            assert(window_ids(available)[i] == id);
        }
    }
    assert forall|i: int, j: int| 0 <= i < match_ids(resolved).len() && 0 <= j < window_ids(moved).len()
        implies match_ids(resolved)[i] != window_ids(moved)[j] by {
        let id = window_ids(moved)[j];
        assert(window_ids(moved).contains(id));
        assert(match_ids(resolved).contains(match_ids(resolved)[i]));
    }
    vstd::seq_lib::lemma_no_dup_in_concat(match_ids(resolved), window_ids(moved));
    assert forall|id: u32| #[trigger] window_ids(keeps).contains(id) ==> !window_ids(moved).contains(id) by {
        if window_ids(keeps).contains(id) && window_ids(moved).contains(id) {
            let i = choose|i: int| 0 <= i < available.len() && claimed(pending)(available[i]) && available[i].window_id == id;
            let j = choose|j: int| 0 <= j < available.len() && unclaimed(pending)(available[j]) && available[j].window_id == id;
            assert(window_ids(available)[i] == window_ids(available)[j]);
        }
    }
    assert forall|id: u32| #[trigger] window_ids(available).contains(id) ==> (window_ids(keeps).contains(id) || window_ids(moved).contains(id)) by {
        if window_ids(available).contains(id) {
            let i = choose|i: int| 0 <= i < window_ids(available).len() && window_ids(available)[i] == id;
            if claimed(pending)(available[i]) {
                assert(claimed(pending)(available[i]) && available[i].window_id == id);
            } else {
                assert(unclaimed(pending)(available[i]) && available[i].window_id == id);
            }
        }
    }
}

/// Every live window either goes to exactly one workspace or is left where
/// it is: the windows that matching sends somewhere and the windows it
/// leaves are, by id, the live windows, none of them twice (the live windows
/// having distinct ids).
pub proof fn law_each_window_placed_once(stage: StageView, windows: Seq<AerospaceWindowView>)
    requires
        window_ids(windows).no_duplicates(),
    ensures
        match_ids(resolve_spec(stage, windows).resolved).no_duplicates(),
        resolve_spec(stage, windows).unresolved.no_duplicates(),
        forall|id: u32| #[trigger] window_ids(windows).contains(id) <==>
            (match_ids(resolve_spec(stage, windows).resolved).contains(id) || resolve_spec(stage, windows).unresolved.contains(id)),
        forall|id: u32| #[trigger] match_ids(resolve_spec(stage, windows).resolved).contains(id) ==>
            !resolve_spec(stage, windows).unresolved.contains(id),
{
    let empty = Seq::<ResolvedWindowMatchView>::empty();
    assert(match_ids(empty) =~= Seq::<u32>::empty());
    assert(accounted(windows, windows, empty));
    let targets = stage_targets(stage.workspaces);
    lemma_rounds_account(resolver_rules(), targets, windows, windows, empty);
    let matched = rule_rounds(resolver_rules(), targets, windows);
    assert(empty + matched.resolved =~= matched.resolved);
    match stage.default_workspace {
        Some(workspace) => {
            lemma_fallback_accounts(windows, matched.pending, matched.available, matched.resolved, workspace);
        },
        None => {},
    }
}

/// Every entry of the stage is either bound to a live window by a rule or
/// reported as still waiting: the rule matches and the waiting entries
/// together number the stage's window entries.
pub proof fn law_each_entry_answered_or_pending(stage: StageView, windows: Seq<AerospaceWindowView>)
    ensures
        rule_rounds(resolver_rules(), stage_targets(stage.workspaces), windows).resolved.len()
            + resolve_spec(stage, windows).pending.len() == stage_targets(stage.workspaces).len(),
{
    lemma_rounds_count(resolver_rules(), stage_targets(stage.workspaces), windows);
}

/// Whether every entry of `targets` belongs to a workspace of `workspaces`.
pub open spec fn entries_of(targets: Seq<ResolveTargetView>, workspaces: Seq<StageWorkspaceView>) -> bool {
    forall|i: int| 0 <= i < targets.len() ==> #[trigger] workspaces.contains(targets[i].workspace)
}

/// Whether one of `workspaces` is named `name`.
pub open spec fn names_workspace(workspaces: Seq<StageWorkspaceView>, name: Seq<char>) -> bool {
    exists|k: int| 0 <= k < workspaces.len() && #[trigger] workspaces[k].name == name
}

/// Whether every match sends its window to a workspace of `workspaces`.
pub open spec fn sent_to_stage(matches: Seq<ResolvedWindowMatchView>, workspaces: Seq<StageWorkspaceView>) -> bool {
    forall|i: int| 0 <= i < matches.len() ==> names_workspace(workspaces, #[trigger] matches[i].target_workspace)
}

proof fn lemma_stage_targets_of(workspaces: Seq<StageWorkspaceView>)
    ensures
        entries_of(stage_targets(workspaces), workspaces),
    decreases workspaces.len(),
{
    if workspaces.len() > 0 {
        let init = workspaces.drop_last();
        lemma_stage_targets_of(init);
        let ws = workspaces.last();
        let targets = stage_targets(workspaces);
        assert forall|i: int| 0 <= i < targets.len() implies #[trigger] workspaces.contains(targets[i].workspace) by {
            if i < stage_targets(init).len() {
                assert(targets[i] == stage_targets(init)[i]);
                assert(init.contains(stage_targets(init)[i].workspace));
                let k = choose|k: int| 0 <= k < init.len() && init[k] == targets[i].workspace;
                assert(workspaces[k] == init[k]);
                assert(workspaces[k] == targets[i].workspace);
            } else {
                assert(targets[i].workspace == ws);
                assert(workspaces[workspaces.len() - 1] == ws);
            }
        }
    }
}

proof fn lemma_pass_sends_to_stage(rule: ResolverRule, pending: Seq<ResolveTargetView>, available: Seq<AerospaceWindowView>, workspaces: Seq<StageWorkspaceView>)
    requires
        entries_of(pending, workspaces),
    ensures
        entries_of(rule_pass(rule, pending, available).pending, workspaces),
        sent_to_stage(rule_pass(rule, pending, available).resolved, workspaces),
    decreases pending.len(),
{
    if pending.len() > 0 {
        let t = pending[0];
        assert(workspaces.contains(pending[0].workspace));
        let k = choose|k: int| 0 <= k < workspaces.len() && workspaces[k] == t.workspace;
        assert(entries_of(pending.drop_first(), workspaces)) by {
            assert forall|i: int| 0 <= i < pending.drop_first().len() implies #[trigger] workspaces.contains(pending.drop_first()[i].workspace) by {
                assert(pending.drop_first()[i] == pending[i + 1]);
            }
        }
        match rule_answer(rule, available, t) {
            Some(m) => {
                lemma_pass_sends_to_stage(rule, pending.drop_first(), without_window(available, m.window_id), workspaces);
                let rest = rule_pass(rule, pending.drop_first(), without_window(available, m.window_id));
                let all = seq![m] + rest.resolved;
                assert(m.target_workspace == t.workspace.name);
                assert forall|i: int| 0 <= i < all.len() implies
                    names_workspace(workspaces, #[trigger] all[i].target_workspace) by {
                    if i == 0 {
                        assert(workspaces[k].name == all[0].target_workspace);
                    } else {
                        assert(all[i] == rest.resolved[i - 1]);
                    }
                }
            },
            None => {
                lemma_pass_sends_to_stage(rule, pending.drop_first(), available, workspaces);
                let rest = rule_pass(rule, pending.drop_first(), available);
                let all = seq![t] + rest.pending;
                assert forall|i: int| 0 <= i < all.len() implies #[trigger] workspaces.contains(all[i].workspace) by {
                    if i > 0 {
                        assert(all[i] == rest.pending[i - 1]);
                    }
                }
            },
        }
    }
}

proof fn lemma_sent_to_stage_concat(a: Seq<ResolvedWindowMatchView>, b: Seq<ResolvedWindowMatchView>, workspaces: Seq<StageWorkspaceView>)
    requires
        sent_to_stage(a, workspaces),
        sent_to_stage(b, workspaces),
    ensures
        sent_to_stage(a + b, workspaces),
{
    assert forall|i: int| 0 <= i < (a + b).len() implies
        names_workspace(workspaces, #[trigger] (a + b)[i].target_workspace) by {
        if i < a.len() {
            assert((a + b)[i] == a[i]);
        } else {
            assert((a + b)[i] == b[i - a.len()]);
        }
    }
}

proof fn lemma_round_sends_to_stage(rules: Seq<ResolverRule>, pending: Seq<ResolveTargetView>, available: Seq<AerospaceWindowView>, workspaces: Seq<StageWorkspaceView>)
    requires
        entries_of(pending, workspaces),
    ensures
        entries_of(rule_round(rules, pending, available).pending, workspaces),
        sent_to_stage(rule_round(rules, pending, available).resolved, workspaces),
    decreases rules.len(),
{
    if rules.len() > 0 {
        lemma_pass_sends_to_stage(rules[0], pending, available, workspaces);
        let first = rule_pass(rules[0], pending, available);
        if first.pending.len() > 0 {
            lemma_round_sends_to_stage(rules.drop_first(), first.pending, first.available, workspaces);
            let rest = rule_round(rules.drop_first(), first.pending, first.available);
            lemma_sent_to_stage_concat(first.resolved, rest.resolved, workspaces);
        }
    }
}

proof fn lemma_rounds_send_to_stage(rules: Seq<ResolverRule>, pending: Seq<ResolveTargetView>, available: Seq<AerospaceWindowView>, workspaces: Seq<StageWorkspaceView>)
    requires
        entries_of(pending, workspaces),
    ensures
        entries_of(rule_rounds(rules, pending, available).pending, workspaces),
        sent_to_stage(rule_rounds(rules, pending, available).resolved, workspaces),
    decreases pending.len(),
{
    lemma_round_sends_to_stage(rules, pending, available, workspaces);
    lemma_round_counts(rules, pending, available);
    let round = rule_round(rules, pending, available);
    if round.pending.len() != pending.len() {
        lemma_rounds_send_to_stage(rules, round.pending, round.available, workspaces);
        let rest = rule_rounds(rules, round.pending, round.available);
        lemma_sent_to_stage_concat(round.resolved, rest.resolved, workspaces);
    }
}

/// Matching only sends windows to the workspaces that the stage lists and to
/// its default workspace; without a default workspace, only to the listed
/// ones.
pub proof fn law_windows_go_to_stage_workspaces(stage: StageView, windows: Seq<AerospaceWindowView>)
    ensures
        forall|i: int| 0 <= i < resolve_spec(stage, windows).resolved.len() ==> {
            let target = #[trigger] resolve_spec(stage, windows).resolved[i].target_workspace;
            names_workspace(stage.workspaces, target) || stage.default_workspace == Some(target)
        },
        stage.default_workspace is None ==> sent_to_stage(resolve_spec(stage, windows).resolved, stage.workspaces),
{
    let targets = stage_targets(stage.workspaces);
    lemma_stage_targets_of(stage.workspaces);
    lemma_rounds_send_to_stage(resolver_rules(), targets, windows, stage.workspaces);
    let matched = rule_rounds(resolver_rules(), targets, windows);
    let r = resolve_spec(stage, windows);
    assert forall|i: int| 0 <= i < r.resolved.len() implies {
        let target = #[trigger] r.resolved[i].target_workspace;
        names_workspace(stage.workspaces, target) || stage.default_workspace == Some(target)
    } by {
        if i < matched.resolved.len() {
            assert(r.resolved[i] == matched.resolved[i]);
        } else {
            let workspace = stage.default_workspace->0;
            let moves = fallback_moves(matched.pending, matched.available, workspace);
            assert(r.resolved[i] == moves[i - matched.resolved.len()]);
        }
    }
}

/// The exact-title rule is tried before any other: where the stage's first
/// entry has a title that matches exactly one live window of its
/// application (equal ignoring case, or containing a match of it), that
/// window is the first one bound, to the entry's workspace, whatever the
/// similarity of other titles or the other rules would say.
pub proof fn law_unique_title_match_binds_first(stage: StageView, windows: Seq<AerospaceWindowView>)
    requires
        stage_targets(stage.workspaces).len() > 0,
        sole_match(windows, stage_targets(stage.workspaces)[0], |w: AerospaceWindowView| same_title(stage_targets(stage.workspaces)[0], w)) is Some,
    ensures
        resolve_spec(stage, windows).resolved.len() > 0,
        resolve_spec(stage, windows).resolved[0]
            == sole_match(windows, stage_targets(stage.workspaces)[0], |w: AerospaceWindowView| same_title(stage_targets(stage.workspaces)[0], w))->0,
{
    let targets = stage_targets(stage.workspaces);
    let t = targets[0];
    let rules = resolver_rules();
    let title_rule = TitleMatchResolverRule {};
    assert((|w: AerospaceWindowView| title_rule.accepts(t, w)) =~= (|w: AerospaceWindowView| same_title(t, w)));
    let m = sole_match(windows, t, |w: AerospaceWindowView| same_title(t, w))->0;
    assert(rule_answer(rules[0], windows, t) == Some(m));
    let first = rule_pass(rules[0], targets, windows);
    assert(first.resolved.len() > 0 && first.resolved[0] == m);
    let round = rule_round(rules, targets, windows);
    assert(round.resolved.len() > 0 && round.resolved[0] == m) by {
        if first.pending.len() != 0 {
            let rest = rule_round(rules.drop_first(), first.pending, first.available);
            assert(round.resolved == first.resolved + rest.resolved);
        }
    }
    let matched = rule_rounds(rules, targets, windows);
    assert(matched.resolved.len() > 0 && matched.resolved[0] == m) by {
        if round.pending.len() != targets.len() {
            let rest = rule_rounds(rules, round.pending, round.available);
            assert(matched.resolved == round.resolved + rest.resolved);
        }
    }
}

} // verus!
