//! The interface of a matching rule, and the choice of the one window that a
//! rule accepts for a stage entry.

use vstd::prelude::*;

use crate::aerospace::types::{AerospaceWindow, AerospaceWindowView};
use crate::restore::types::{
    ResolveTarget, ResolveTargetView, ResolvedWindowMatch, ResolvedWindowMatchView,
};

verus! {

/// Whether `flags[i]` is the only `true` entry of `flags`.
pub open spec fn is_only_true(flags: Seq<bool>, i: int) -> bool {
    &&& 0 <= i < flags.len()
    &&& flags[i]
    &&& forall|j: int| 0 <= j < flags.len() && j != i ==> !#[trigger] flags[j]
}

/// The index of the only `true` entry of `flags`, or `None` where no entry
/// or more than one entry is `true`.
pub open spec fn only_true(flags: Seq<bool>) -> Option<int> {
    if exists|i: int| is_only_true(flags, i) {
        Some(choose|i: int| is_only_true(flags, i))
    } else {
        None
    }
}

/// What a rule answers when it picks `window` for `target`: the window goes
/// to the workspace of the entry.
pub open spec fn resolved_for(target: ResolveTargetView, window: AerospaceWindowView) -> ResolvedWindowMatchView {
    ResolvedWindowMatchView { target_workspace: target.workspace.name, window_id: window.window_id }
}

/// The answer of a rule that accepts, for `target`, the windows for which
/// `accepts` holds: the window when it accepts exactly one of `windows`,
/// and nothing when it accepts none or several.
pub open spec fn sole_match(
    windows: Seq<AerospaceWindowView>,
    target: ResolveTargetView,
    accepts: spec_fn(AerospaceWindowView) -> bool,
) -> Option<ResolvedWindowMatchView> {
    match only_true(windows.map_values(accepts)) {
        Some(i) => Some(resolved_for(target, windows[i])),
        None => None,
    }
}

/// A sole match, where there is one, is one of the windows sent to the
/// entry's workspace.
pub proof fn lemma_sole_match_picks(windows: Seq<AerospaceWindowView>, target: ResolveTargetView, accepts: spec_fn(AerospaceWindowView) -> bool)
    requires
        sole_match(windows, target, accepts) is Some,
    ensures
        exists|i: int| 0 <= i < windows.len() && sole_match(windows, target, accepts) == Some(#[trigger] resolved_for(target, windows[i])),
{
    let flags = windows.map_values(accepts);
    let i = only_true(flags)->0;
    assert(is_only_true(flags, i));
    assert(sole_match(windows, target, accepts) == Some(resolved_for(target, windows[i])));
}

/// A way of picking, among the live windows, the one that a stage entry
/// asks for. A rule only answers when it points at exactly one window.
pub trait WindowResolverRule {
    /// Whether the rule accepts `window` for `target`.
    spec fn accepts(&self, target: ResolveTargetView, window: AerospaceWindowView) -> bool;

    /// The rule's answer for `target` among `windows`: unless the rule says
    /// otherwise, the only window that it accepts, sent to the entry's
    /// workspace, and nothing where it accepts none or several.
    open spec fn answer(&self, windows: Seq<AerospaceWindowView>, target: ResolveTargetView) -> Option<ResolvedWindowMatchView> {
        sole_match(windows, target, |w: AerospaceWindowView| self.accepts(target, w))
    }

    /// The rule's answer for `target` among `windows` (see
    /// [`WindowResolverRule::answer`]).
    fn match_window(&self, windows: &[AerospaceWindow], target: &ResolveTarget) -> (r: Option<ResolvedWindowMatch>)
        ensures
            r.deep_view() == self.answer(windows.deep_view(), target@),
    ;
}

/// The index of the only `true` entry of `flags`.
pub fn find_only_true(flags: &Vec<bool>) -> (r: Option<usize>)
    ensures
        match r {
            Some(i) => only_true(flags@) == Some(i as int),
            None => only_true(flags@).is_none(),
        },
{
    let mut found: Option<usize> = None;
    let mut i: usize = 0;
    while i < flags.len()
        invariant
            i <= flags.len(),
            match found {
                Some(k) => k < i && flags@[k as int] && forall|j: int| 0 <= j < i && j != k ==> !#[trigger] flags@[j],
                None => forall|j: int| 0 <= j < i ==> !#[trigger] flags@[j],
            },
        decreases flags.len() - i,
    {
        if flags[i] {
            match found {
                Some(k) => {
                    proof {
                        assert forall|m: int| !is_only_true(flags@, m) by {
                            if is_only_true(flags@, m) {
                                if m != k as int {
                                    assert(!flags@[k as int]);
                                } else {
                                    assert(!flags@[i as int]);
                                }
                            }
                        }
                    }
                    return None;
                },
                None => {
                    found = Some(i);
                },
            }
        }
        i = i + 1;
    }
    match found {
        Some(k) => {
            assert(is_only_true(flags@, k as int));
            proof {
                let c = choose|m: int| is_only_true(flags@, m);
                assert(is_only_true(flags@, c));
                if c != k as int {
                    assert(!flags@[c]);
                }
            }
            Some(k)
        },
        None => {
            assert forall|m: int| !is_only_true(flags@, m) by {
                if 0 <= m < flags@.len() {
                    assert(!flags@[m]);
                }
            }
            None
        },
    }
}

/// The answer for `target` once a rule has picked `window`.
pub fn resolved_match(target: &ResolveTarget, window: &AerospaceWindow) -> (r: ResolvedWindowMatch)
    ensures
        r@ == resolved_for(target@, window@),
{
    ResolvedWindowMatch { target_workspace: target.target_workspace.name.clone(), window_id: window.window_id }
}

/// The answer of a rule, given for each window whether the rule accepts it.
pub(crate) fn answer_from_flags(windows: &[AerospaceWindow], target: &ResolveTarget, flags: &Vec<bool>, accepts: Ghost<spec_fn(AerospaceWindowView) -> bool>) -> (r: Option<ResolvedWindowMatch>)
    requires
        flags@ == windows.deep_view().map_values(accepts@),
    ensures
        r.deep_view() == sole_match(windows.deep_view(), target@, accepts@),
{
    match find_only_true(flags) {
        Some(i) => {
            let m = resolved_match(target, &windows[i]);
            assert(windows.deep_view()[i as int] == windows@[i as int]@);
            Some(m)
        },
        None => None,
    }
}

} // verus!
