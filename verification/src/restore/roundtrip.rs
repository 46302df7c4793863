//! Restoring a stage right after capturing it: every rule binds each entry
//! to the very window it was captured from, so nothing moves.

use vstd::prelude::*;

use crate::aerospace::types::AerospaceWindowView;
use crate::capture::{
    capture_spec, captured_before, captured_workspaces, on_workspace, stage_window_of, wanted, windows_on,
};
use crate::restore::resolution::{
    entry_of, lemma_filter_ids, resolve_spec, stage_targets, window_ids, other_than, resolver_rules, rule_answer, rule_pass, rule_round, rule_rounds, without_window, ResolverRule,
    TITLE_SIMILARITY_THRESHOLD,
};
use crate::restore::rule::{is_only_true, only_true, sole_match, WindowResolverRule};
use crate::restore::rules::title_match::{
    is_most_similar, lemma_levenshtein_bound, levenshtein_spec, more_similar, similar_enough, similar_title,
    title_similarity,
};
use crate::restore::types::{ResolveTargetView, ResolvedWindowMatchView};
use crate::restore::restore::{
    current_workspace, flatten_actions, layout_actions, move_actions, plan_spec, RestoreActionView,
};
use crate::stage::StageWorkspaceView;
use crate::text::{spec_to_lowercase, trim_spec};

verus! {

/// Whether a live window is the one a stage entry was captured from: the
/// entry records its app, title and bundle id, on the workspace it is on.
pub open spec fn origin_of(window: AerospaceWindowView, target: ResolveTargetView) -> bool {
    target.window == stage_window_of(window) && target.workspace.name == window.workspace
}

/// Whether a window's app name and bundle id carry no surrounding
/// whitespace.
pub open spec fn trimmed_names(window: AerospaceWindowView) -> bool {
    trim_spec(window.app_name) == window.app_name && trim_spec(window.app_bundle_id) == window.app_bundle_id
}

/// The Levenshtein distance of a text to itself is zero.
proof fn lemma_levenshtein_self(a: Seq<char>)
    ensures
        levenshtein_spec(a, a) == 0,
    decreases a.len(),
{
    if a.len() > 0 {
        lemma_levenshtein_self(a.drop_last());
    }
}

/// Whether `rule` is one of the resolver's rules.
pub open spec fn is_resolver_rule(rule: ResolverRule) -> bool {
    exists|k: int| 0 <= k < resolver_rules().len() && resolver_rules()[k] == rule
}

/// Every rule of the resolver accepts, for an entry, the window it was
/// captured from.
proof fn lemma_rules_accept_origin(rule: ResolverRule, window: AerospaceWindowView, target: ResolveTargetView)
    requires
        is_resolver_rule(rule),
        origin_of(window, target),
        trimmed_names(window),
    ensures
        rule.accepts(target, window),
{
    let k = choose|k: int| 0 <= k < resolver_rules().len() && resolver_rules()[k] == rule;
    let lower = spec_to_lowercase(window.window_title);
    lemma_levenshtein_self(lower);
    assert(similar_enough(lower.len(), lower.len(), 0, TITLE_SIMILARITY_THRESHOLD as nat));
}

/// Where a rule accepts, for an entry, the window it was captured from,
/// its answer can only be that window, sent to the workspace it is on.
proof fn lemma_answer_is_origin(
    available: Seq<AerospaceWindowView>,
    target: ResolveTargetView,
    accepts: spec_fn(AerospaceWindowView) -> bool,
    k: int,
)
    requires
        0 <= k < available.len(),
        accepts(available[k]),
        origin_of(available[k], target),
        sole_match(available, target, accepts) is Some,
    ensures
        sole_match(available, target, accepts)->0.window_id == available[k].window_id,
        sole_match(available, target, accepts)->0.target_workspace == available[k].workspace,
{
    let flags = available.map_values(accepts);
    let i = only_true(flags)->0;
    assert(is_only_true(flags, i));
    assert(flags[k]);
    assert(i == k);
}

/// No title is more similar to another than a title to itself.
proof fn lemma_none_more_similar_than_same(x: (int, int), d: int)
    requires
        d > 0,
        x.1 > 0,
        x.0 <= x.1,
    ensures
        !more_similar(x, (d, d)),
{
    assert(x.0 * d <= d * x.1) by (nonlinear_arith)
        requires d > 0, x.0 <= x.1;
}

/// Whatever a rule of the resolver answers for an entry, among windows that
/// hold the window the entry was captured from, is that window, sent to
/// the workspace it is on.
proof fn lemma_rule_answer_is_origin(rule: ResolverRule, available: Seq<AerospaceWindowView>, target: ResolveTargetView, k: int)
    requires
        is_resolver_rule(rule),
        0 <= k < available.len(),
        origin_of(available[k], target),
        trimmed_names(available[k]),
        rule_answer(rule, available, target) is Some,
    ensures
        rule_answer(rule, available, target)->0.window_id == available[k].window_id,
        rule_answer(rule, available, target)->0.target_workspace == available[k].workspace,
{
    lemma_rules_accept_origin(rule, available[k], target);
    match rule {
        ResolverRule::TitleSimilarity(r) => {
            let percent = r.threshold as nat;
            let i = choose|i: int| is_most_similar(target, available, percent, i);
            if i != k {
                assert(similar_title(target, available[k], percent));
                let w = available[k];
                let v = available[i];
                let lower = spec_to_lowercase(w.window_title);
                lemma_levenshtein_self(lower);
                let t = target.window.title->0;
                assert(t == w.window_title);
                let vt = v.window_title;
                lemma_levenshtein_bound(spec_to_lowercase(t), spec_to_lowercase(vt));
                let sv = title_similarity(target, v);
                let sw = title_similarity(target, w);
                assert(sw.0 == sw.1 && sw.1 > 0);
                assert(sv.1 > 0 && sv.0 <= sv.1);
                lemma_none_more_similar_than_same(sv, sw.1);
                assert(more_similar(sv, sw));
            }
        },
        ResolverRule::TitleMatch(r) => lemma_answer_is_origin(available, target, |x: AerospaceWindowView| r.accepts(target, x), k),
        ResolverRule::TargetWorkspace(r) => lemma_answer_is_origin(available, target, |x: AerospaceWindowView| r.accepts(target, x), k),
        ResolverRule::UniqueBundleId(r) => lemma_answer_is_origin(available, target, |x: AerospaceWindowView| r.accepts(target, x), k),
        ResolverRule::UniqueAppName(r) => lemma_answer_is_origin(available, target, |x: AerospaceWindowView| r.accepts(target, x), k),
    }
}

/// Every item that filtering keeps was in the sequence and passes.
proof fn lemma_filter_within<A>(s: Seq<A>, pred: spec_fn(A) -> bool)
    ensures
        forall|i: int| 0 <= i < s.filter(pred).len() ==> s.contains(#[trigger] s.filter(pred)[i]) && pred(s.filter(pred)[i]),
    decreases s.len(),
{
    reveal(Seq::filter);
    if s.len() > 0 {
        lemma_filter_within(s.drop_last(), pred);
        let f = s.filter(pred);
        let g = s.drop_last().filter(pred);
        assert forall|i: int| 0 <= i < f.len() implies s.contains(#[trigger] f[i]) && pred(f[i]) by {
            if i < g.len() {
                assert(f[i] == g[i]);
                let j = choose|j: int| 0 <= j < s.drop_last().len() && s.drop_last()[j] == g[i];
                assert(s[j] == g[i]);
            } else {
                assert(f[i] == s.last());
                assert(s[s.len() - 1] == s.last());
            }
        }
    }
}

/// Whether `available` holds, for an entry, the window with id `id` that
/// the entry was captured from.
pub open spec fn has_origin_at(available: Seq<AerospaceWindowView>, id: u32, target: ResolveTargetView) -> bool {
    exists|k: int| 0 <= k < available.len() && available[k].window_id == id && origin_of(#[trigger] available[k], target)
}

/// Whether each waiting entry's own window, named by `origins`, is still
/// available, no window being the origin of two entries.
pub open spec fn traced(pending: Seq<ResolveTargetView>, origins: Seq<u32>, available: Seq<AerospaceWindowView>) -> bool {
    &&& origins.len() == pending.len()
    &&& origins.no_duplicates()
    &&& forall|i: int| 0 <= i < pending.len() ==> has_origin_at(available, #[trigger] origins[i], pending[i])
}

/// Whether every window of `windows` has trimmed names.
pub open spec fn all_trimmed(windows: Seq<AerospaceWindowView>) -> bool {
    forall|k: int| 0 <= k < windows.len() ==> trimmed_names(#[trigger] windows[k])
}

/// Whether every available window is one of `all_live`.
pub open spec fn within(available: Seq<AerospaceWindowView>, all_live: Seq<AerospaceWindowView>) -> bool {
    forall|k: int| 0 <= k < available.len() ==> all_live.contains(#[trigger] available[k])
}

/// Whether `all_live` has the window of a match on the match's target
/// workspace already.
pub open spec fn in_place(all_live: Seq<AerospaceWindowView>, m: ResolvedWindowMatchView) -> bool {
    exists|k: int| 0 <= k < all_live.len() && all_live[k].window_id == m.window_id && #[trigger] all_live[k].workspace == m.target_workspace
}

/// Whether every match sends its window where it already is.
pub open spec fn stays_put(resolved: Seq<ResolvedWindowMatchView>, all_live: Seq<AerospaceWindowView>) -> bool {
    forall|i: int| 0 <= i < resolved.len() ==> in_place(all_live, #[trigger] resolved[i])
}

/// A pass binds entries only to their own windows, and leaves the other
/// entries' windows and the windows that are nobody's origin available.
proof fn lemma_pass_traced(
    rule: ResolverRule,
    pending: Seq<ResolveTargetView>,
    origins: Seq<u32>,
    available: Seq<AerospaceWindowView>,
    all_live: Seq<AerospaceWindowView>,
) -> (rest: Seq<u32>)
    requires
        is_resolver_rule(rule),
        traced(pending, origins, available),
        within(available, all_live),
        all_trimmed(all_live),
    ensures
        traced(rule_pass(rule, pending, available).pending, rest, rule_pass(rule, pending, available).available),
        within(rule_pass(rule, pending, available).available, all_live),
        stays_put(rule_pass(rule, pending, available).resolved, all_live),
        forall|x: u32| rest.contains(x) ==> origins.contains(x),
        forall|k: int| 0 <= k < available.len() && !origins.contains(#[trigger] available[k].window_id)
            ==> rule_pass(rule, pending, available).available.contains(available[k]),
    decreases pending.len(),
{
    if pending.len() == 0 {
        return Seq::empty();
    }
    let t = pending[0];
    let o = origins[0];
    assert(has_origin_at(available, origins[0], pending[0]));
    let k = choose|k: int| 0 <= k < available.len() && available[k].window_id == o && origin_of(#[trigger] available[k], t);
    let w = available[k];
    assert(all_live.contains(w));
    let j = choose|j: int| 0 <= j < all_live.len() && all_live[j] == w;
    assert(trimmed_names(all_live[j]));
    assert(trimmed_names(w));
    let origins_rest = origins.drop_first();
    let pending_rest = pending.drop_first();
    assert forall|i: int| 0 <= i < pending_rest.len() implies has_origin_at(available, #[trigger] origins_rest[i], pending_rest[i]) by {
        assert(origins_rest[i] == origins[i + 1]);
        assert(pending_rest[i] == pending[i + 1]);
        assert(has_origin_at(available, origins[i + 1], pending[i + 1]));
    }
    assert(origins_rest.no_duplicates());
    match rule_answer(rule, available, t) {
        Some(m) => {
            lemma_rule_answer_is_origin(rule, available, t, k);
            assert(m.window_id == o);
            let next = without_window(available, o);
            lemma_filter_within(available, other_than(o));
            assert(within(next, all_live)) by {
                assert forall|q: int| 0 <= q < next.len() implies all_live.contains(#[trigger] next[q]) by {
                    assert(available.contains(next[q]));
                    let p = choose|p: int| 0 <= p < available.len() && available[p] == next[q];
                    assert(all_live.contains(available[p]));
                }
            }
            assert forall|i: int| 0 <= i < pending_rest.len() implies has_origin_at(next, #[trigger] origins_rest[i], pending_rest[i]) by {
                let id = origins_rest[i];
                assert(has_origin_at(available, origins_rest[i], pending_rest[i]));
                let p = choose|p: int| 0 <= p < available.len() && available[p].window_id == id && origin_of(#[trigger] available[p], pending_rest[i]);
                assert(origins[i + 1] == id);
                assert(id != o);
                available.lemma_filter_contains(other_than(o), p);
                assert(next.contains(available[p]));
                let q = choose|q: int| 0 <= q < next.len() && next[q] == available[p];
                assert(next[q].window_id == id && origin_of(next[q], pending_rest[i]));
            }
            let rest = lemma_pass_traced(rule, pending_rest, origins_rest, next, all_live);
            let tail = rule_pass(rule, pending_rest, next);
            let whole = rule_pass(rule, pending, available);
            assert(in_place(all_live, m)) by {
                assert(all_live[j].window_id == m.window_id && all_live[j].workspace == m.target_workspace);
            }
            assert forall|i: int| 0 <= i < whole.resolved.len() implies in_place(all_live, #[trigger] whole.resolved[i]) by {
                if i > 0 {
                    assert(whole.resolved[i] == tail.resolved[i - 1]);
                }
            }
            assert forall|x: u32| rest.contains(x) implies origins.contains(x) by {
                assert(origins_rest.contains(x));
                let p = choose|p: int| 0 <= p < origins_rest.len() && origins_rest[p] == x;
                assert(origins[p + 1] == x);
            }
            assert forall|q: int| 0 <= q < available.len() && !origins.contains(#[trigger] available[q].window_id)
                implies whole.available.contains(available[q]) by {
                assert(available[q].window_id != o) by {
                    if available[q].window_id == o {
                        assert(origins[0] == o);
                    }
                }
                available.lemma_filter_contains(other_than(o), q);
                let r = choose|r: int| 0 <= r < next.len() && next[r] == available[q];
                assert(!origins_rest.contains(next[r].window_id)) by {
                    if origins_rest.contains(next[r].window_id) {
                        let p = choose|p: int| 0 <= p < origins_rest.len() && origins_rest[p] == next[r].window_id;
                        assert(origins[p + 1] == available[q].window_id);
                    }
                }
            }
            rest
        },
        None => {
            let rest = lemma_pass_traced(rule, pending_rest, origins_rest, available, all_live);
            let tail = rule_pass(rule, pending_rest, available);
            let whole = rule_pass(rule, pending, available);
            let out = seq![o] + rest;
            assert(!origins_rest.contains(o)) by {
                if origins_rest.contains(o) {
                    let p = choose|p: int| 0 <= p < origins_rest.len() && origins_rest[p] == o;
                    assert(origins[p + 1] == origins[0]);
                }
            }
            assert(!rest.contains(o));
            assert(!origins_rest.contains(w.window_id));
            assert(tail.available.contains(w));
            let r = choose|r: int| 0 <= r < tail.available.len() && tail.available[r] == w;
            assert(has_origin_at(tail.available, o, t)) by {
                assert(tail.available[r].window_id == o && origin_of(tail.available[r], t));
            }
            assert(out.no_duplicates()) by {
                assert forall|a: int, b: int| 0 <= a < out.len() && 0 <= b < out.len() && a != b implies out[a] != out[b] by {
                    if a == 0 {
                        assert(rest.contains(out[b]));
                    } else if b == 0 {
                        assert(rest.contains(out[a]));
                    } else {
                        assert(out[a] == rest[a - 1] && out[b] == rest[b - 1]);
                    }
                }
            }
            assert forall|i: int| 0 <= i < whole.pending.len() implies has_origin_at(whole.available, #[trigger] out[i], whole.pending[i]) by {
                if i > 0 {
                    assert(out[i] == rest[i - 1]);
                    assert(whole.pending[i] == tail.pending[i - 1]);
                }
            }
            assert forall|x: u32| out.contains(x) implies origins.contains(x) by {
                let p = choose|p: int| 0 <= p < out.len() && out[p] == x;
                if p == 0 {
                    assert(origins[0] == x);
                } else {
                    assert(rest.contains(x));
                    assert(origins_rest.contains(x));
                    let p2 = choose|p2: int| 0 <= p2 < origins_rest.len() && origins_rest[p2] == x;
                    assert(origins[p2 + 1] == x);
                }
            }
            assert forall|q: int| 0 <= q < available.len() && !origins.contains(#[trigger] available[q].window_id)
                implies whole.available.contains(available[q]) by {
                assert(!origins_rest.contains(available[q].window_id)) by {
                    if origins_rest.contains(available[q].window_id) {
                        let p = choose|p: int| 0 <= p < origins_rest.len() && origins_rest[p] == available[q].window_id;
                        assert(origins[p + 1] == available[q].window_id);
                    }
                }
            }
            out
        },
    }
}

proof fn lemma_stays_put_concat(a: Seq<ResolvedWindowMatchView>, b: Seq<ResolvedWindowMatchView>, all_live: Seq<AerospaceWindowView>)
    requires
        stays_put(a, all_live),
        stays_put(b, all_live),
    ensures
        stays_put(a + b, all_live),
{
    assert forall|i: int| 0 <= i < (a + b).len() implies in_place(all_live, #[trigger] (a + b)[i]) by {
        if i < a.len() {
            assert((a + b)[i] == a[i]);
        } else {
            assert((a + b)[i] == b[i - a.len()]);
        }
    }
}

/// A round binds entries only to their own windows (see
/// [`lemma_pass_traced`]).
proof fn lemma_round_traced(
    rules: Seq<ResolverRule>,
    pending: Seq<ResolveTargetView>,
    origins: Seq<u32>,
    available: Seq<AerospaceWindowView>,
    all_live: Seq<AerospaceWindowView>,
) -> (rest: Seq<u32>)
    requires
        forall|k: int| 0 <= k < rules.len() ==> is_resolver_rule(#[trigger] rules[k]),
        traced(pending, origins, available),
        within(available, all_live),
        all_trimmed(all_live),
    ensures
        traced(rule_round(rules, pending, available).pending, rest, rule_round(rules, pending, available).available),
        within(rule_round(rules, pending, available).available, all_live),
        stays_put(rule_round(rules, pending, available).resolved, all_live),
        forall|x: u32| rest.contains(x) ==> origins.contains(x),
        forall|k: int| 0 <= k < available.len() && !origins.contains(#[trigger] available[k].window_id)
            ==> rule_round(rules, pending, available).available.contains(available[k]),
    decreases rules.len(),
{
    if rules.len() == 0 {
        assert forall|k: int| 0 <= k < available.len() && !origins.contains(#[trigger] available[k].window_id)
            implies available.contains(available[k]) by {}
        return origins;
    }
    assert(is_resolver_rule(rules[0]));
    let first_origins = lemma_pass_traced(rules[0], pending, origins, available, all_live);
    let first = rule_pass(rules[0], pending, available);
    if first.pending.len() == 0 {
        return first_origins;
    }
    assert forall|k: int| 0 <= k < rules.drop_first().len() implies is_resolver_rule(#[trigger] rules.drop_first()[k]) by {
        assert(rules.drop_first()[k] == rules[k + 1]);
    }
    let rest = lemma_round_traced(rules.drop_first(), first.pending, first_origins, first.available, all_live);
    let later = rule_round(rules.drop_first(), first.pending, first.available);
    lemma_stays_put_concat(first.resolved, later.resolved, all_live);
    assert forall|k: int| 0 <= k < available.len() && !origins.contains(#[trigger] available[k].window_id)
        implies rule_round(rules, pending, available).available.contains(available[k]) by {
        assert(first.available.contains(available[k]));
        let q = choose|q: int| 0 <= q < first.available.len() && first.available[q] == available[k];
        assert(!first_origins.contains(first.available[q].window_id));
    }
    rest
}

/// Rounds bind entries only to their own windows (see
/// [`lemma_pass_traced`]).
proof fn lemma_rounds_traced(
    rules: Seq<ResolverRule>,
    pending: Seq<ResolveTargetView>,
    origins: Seq<u32>,
    available: Seq<AerospaceWindowView>,
    all_live: Seq<AerospaceWindowView>,
) -> (rest: Seq<u32>)
    requires
        forall|k: int| 0 <= k < rules.len() ==> is_resolver_rule(#[trigger] rules[k]),
        traced(pending, origins, available),
        within(available, all_live),
        all_trimmed(all_live),
    ensures
        traced(rule_rounds(rules, pending, available).pending, rest, rule_rounds(rules, pending, available).available),
        within(rule_rounds(rules, pending, available).available, all_live),
        stays_put(rule_rounds(rules, pending, available).resolved, all_live),
    decreases pending.len(),
{
    let round_origins = lemma_round_traced(rules, pending, origins, available, all_live);
    crate::restore::resolution::lemma_round_counts(rules, pending, available);
    let round = rule_round(rules, pending, available);
    if round.pending.len() == pending.len() {
        return round_origins;
    }
    let rest = lemma_rounds_traced(rules, round.pending, round_origins, round.available, all_live);
    let later = rule_rounds(rules, round.pending, round.available);
    lemma_stays_put_concat(round.resolved, later.resolved, all_live);
    rest
}

/// The entries of a captured stage each have their own window among the
/// live ones, on a workspace that was listed and wanted.
proof fn lemma_capture_traced(
    listed: Seq<crate::aerospace::types::AerospaceWorkspaceView>,
    windows: Seq<AerospaceWindowView>,
    filter: Option<Seq<Seq<char>>>,
) -> (origins: Seq<u32>)
    requires
        window_ids(windows).no_duplicates(),
    ensures
        traced(stage_targets(captured_workspaces(listed, windows, filter)), origins, windows),
        forall|i: int| 0 <= i < stage_targets(captured_workspaces(listed, windows, filter)).len() ==>
            captured_before(listed, filter, #[trigger] stage_targets(captured_workspaces(listed, windows, filter))[i].workspace.name),
    decreases listed.len(),
{
    if listed.len() == 0 {
        return Seq::empty();
    }
    let init = listed.drop_last();
    let name = listed.last().workspace;
    let before = lemma_capture_traced(init, windows, filter);
    let earlier = captured_workspaces(init, windows, filter);
    let earlier_targets = stage_targets(earlier);
    let all = captured_workspaces(listed, windows, filter);
    let all_targets = stage_targets(all);
    assert forall|i: int| 0 <= i < earlier_targets.len() implies
        captured_before(listed, filter, #[trigger] earlier_targets[i].workspace.name) by {
        assert(captured_before(init, filter, earlier_targets[i].workspace.name));
        let k = choose|k: int| 0 <= k < init.len() && wanted(filter, init[k].workspace) && #[trigger] init[k].workspace == earlier_targets[i].workspace.name;
        assert(listed[k] == init[k]);
    }
    if !(wanted(filter, name) && !captured_before(init, filter, name) && windows_on(windows, name).len() > 0) {
        assert(all =~= earlier);
        return before;
    }
    let ws = StageWorkspaceView { name, windows: windows_on(windows, name), layout: None };
    assert(all =~= earlier.push(ws));
    assert(all.drop_last() =~= earlier);
    assert(all.last() == ws);
    let fresh = ws.windows.map_values(entry_of(ws));
    assert(all_targets == earlier_targets + fresh);
    let kept = windows.filter(on_workspace(name));
    lemma_filter_ids(windows, on_workspace(name));
    lemma_filter_within(windows, on_workspace(name));
    let added = window_ids(kept);
    let origins = before + added;
    assert(fresh.len() == added.len());
    assert forall|j: int| 0 <= j < fresh.len() implies has_origin_at(windows, #[trigger] added[j], fresh[j]) by {
        let w = kept[j];
        assert(windows.contains(w));
        let b = choose|b: int| 0 <= b < windows.len() && windows[b] == w;
        assert(ws.windows[j] == stage_window_of(w));
        assert(fresh[j] == entry_of(ws)(ws.windows[j]));
        assert(origin_of(windows[b], fresh[j]));
        assert(windows[b].window_id == added[j]);
    }
    assert(origins.no_duplicates()) by {
        assert forall|a: int, b: int| 0 <= a < before.len() && 0 <= b < added.len() implies before[a] != added[b] by {
            if before[a] == added[b] {
                assert(has_origin_at(windows, before[a], earlier_targets[a]));
                let p = choose|p: int| 0 <= p < windows.len() && windows[p].window_id == before[a] && origin_of(#[trigger] windows[p], earlier_targets[a]);
                let w = kept[b];
                assert(windows.contains(w));
                let q = choose|q: int| 0 <= q < windows.len() && windows[q] == w;
                assert(window_ids(windows)[p] == window_ids(windows)[q]);
                assert(p == q);
                assert(w.workspace == name);
                assert(captured_before(init, filter, earlier_targets[a].workspace.name));
            }
        }
        vstd::seq_lib::lemma_no_dup_in_concat(before, added);
    }
    assert forall|i: int| 0 <= i < all_targets.len() implies has_origin_at(windows, #[trigger] origins[i], all_targets[i]) by {
        if i < earlier_targets.len() {
            assert(origins[i] == before[i]);
            assert(all_targets[i] == earlier_targets[i]);
        } else {
            assert(origins[i] == added[i - earlier_targets.len()]);
            assert(all_targets[i] == fresh[i - earlier_targets.len()]);
        }
    }
    assert forall|i: int| 0 <= i < all_targets.len() implies captured_before(listed, filter, #[trigger] all_targets[i].workspace.name) by {
        if i < earlier_targets.len() {
            assert(all_targets[i] == earlier_targets[i]);
        } else {
            assert(all_targets[i] == fresh[i - earlier_targets.len()]);
            assert(listed[listed.len() - 1].workspace == name);
        }
    }
    origins
}

/// A captured stage gives no workspace a layout.
proof fn lemma_capture_has_no_layouts(
    listed: Seq<crate::aerospace::types::AerospaceWorkspaceView>,
    windows: Seq<AerospaceWindowView>,
    filter: Option<Seq<Seq<char>>>,
)
    ensures
        flatten_actions(captured_workspaces(listed, windows, filter)) == Seq::<RestoreActionView>::empty(),
        layout_actions(captured_workspaces(listed, windows, filter)) == Seq::<RestoreActionView>::empty(),
    decreases listed.len(),
{
    if listed.len() > 0 {
        let init = listed.drop_last();
        lemma_capture_has_no_layouts(init, windows, filter);
        let earlier = captured_workspaces(init, windows, filter);
        let all = captured_workspaces(listed, windows, filter);
        if all.len() > earlier.len() {
            assert(all.drop_last() =~= earlier);
        } else {
            assert(all =~= earlier);
        }
    }
}

/// With distinct ids, the workspace a window is on now is that of the live
/// window with its id.
proof fn lemma_current_workspace(live: Seq<AerospaceWindowView>, k: int)
    requires
        0 <= k < live.len(),
        window_ids(live).no_duplicates(),
    ensures
        current_workspace(live, live[k].window_id) == Some(live[k].workspace),
    decreases live.len(),
{
    if k < live.len() - 1 {
        assert(window_ids(live)[k] != window_ids(live)[live.len() - 1]);
        assert(window_ids(live.drop_last()) =~= window_ids(live).drop_last());
        lemma_current_workspace(live.drop_last(), k);
        assert(live.drop_last()[k] == live[k]);
    }
}

/// Matches that keep every window where it is need no moves.
proof fn lemma_no_moves(resolved: Seq<ResolvedWindowMatchView>, live: Seq<AerospaceWindowView>)
    requires
        stays_put(resolved, live),
        window_ids(live).no_duplicates(),
    ensures
        move_actions(resolved, live) == Seq::<RestoreActionView>::empty(),
    decreases resolved.len(),
{
    if resolved.len() > 0 {
        let init = resolved.drop_last();
        assert forall|i: int| 0 <= i < init.len() implies in_place(live, #[trigger] init[i]) by {
            assert(init[i] == resolved[i]);
        }
        lemma_no_moves(init, live);
        let m = resolved.last();
        assert(in_place(live, resolved[resolved.len() - 1]));
        let k = choose|k: int| 0 <= k < live.len() && live[k].window_id == m.window_id && #[trigger] live[k].workspace == m.target_workspace;
        lemma_current_workspace(live, k);
        assert(move_actions(resolved, live) =~= Seq::<RestoreActionView>::empty());
    }
}

/// Restoring a stage right after capturing it, with no default workspace,
/// against the same live windows, binds every entry it binds to the very
/// window it was captured from, so the plan moves no window and changes no
/// layout (the live windows having distinct ids and app names and bundle
/// ids without surrounding whitespace).
pub proof fn law_fresh_capture_restores_in_place(
    listed: Seq<crate::aerospace::types::AerospaceWorkspaceView>,
    windows: Seq<AerospaceWindowView>,
    filter: Option<Seq<Seq<char>>>,
    name: Option<Seq<char>>,
)
    requires
        window_ids(windows).no_duplicates(),
        all_trimmed(windows),
    ensures
        stays_put(resolve_spec(capture_spec(name, filter, None, listed, windows), windows).resolved, windows),
        plan_spec(
            capture_spec(name, filter, None, listed, windows).workspaces,
            resolve_spec(capture_spec(name, filter, None, listed, windows), windows).resolved,
            windows,
        ) == Seq::<RestoreActionView>::empty(),
{
    let stage = capture_spec(name, filter, None, listed, windows);
    let origins = lemma_capture_traced(listed, windows, filter);
    assert(within(windows, windows)) by {
        assert forall|k: int| 0 <= k < windows.len() implies windows.contains(#[trigger] windows[k]) by {}
    }
    assert forall|k: int| 0 <= k < resolver_rules().len() implies is_resolver_rule(#[trigger] resolver_rules()[k]) by {}
    lemma_rounds_traced(resolver_rules(), stage_targets(stage.workspaces), origins, windows, windows);
    let resolved = resolve_spec(stage, windows).resolved;
    lemma_no_moves(resolved, windows);
    lemma_capture_has_no_layouts(listed, windows, filter);
    assert(plan_spec(stage.workspaces, resolved, windows) =~= Seq::<RestoreActionView>::empty());
}

} // verus!
