//! Rules that pick the only live window of an application.

use vstd::prelude::*;

use crate::aerospace::types::{AerospaceWindow, AerospaceWindowView};
use crate::restore::rule::{answer_from_flags, WindowResolverRule};
use crate::restore::types::{ResolveTarget, ResolveTargetView, ResolvedWindowMatch};
use crate::text::text_eq;

verus! {

/// Picks the window whose bundle id equals the entry's, where exactly one
/// window has it.
pub struct UniqueBundleIdResolverRule {}

/// Whether `window` has the bundle id that the entry names (compared as
/// written, without trimming); an entry without a bundle id accepts nothing.
pub open spec fn same_bundle_id(target: ResolveTargetView, window: AerospaceWindowView) -> bool {
    match target.window.bundle_id {
        Some(b) => window.app_bundle_id == b,
        None => false,
    }
}

impl WindowResolverRule for UniqueBundleIdResolverRule {
    open spec fn accepts(&self, target: ResolveTargetView, window: AerospaceWindowView) -> bool {
        same_bundle_id(target, window)
    }

    fn match_window(&self, windows: &[AerospaceWindow], target: &ResolveTarget) -> (r: Option<ResolvedWindowMatch>) {
        let ghost accepts = |w: AerospaceWindowView| self.accepts(target@, w);
        let mut flags: Vec<bool> = Vec::new();
        let mut i: usize = 0;
        while i < windows.len()
            invariant
                i <= windows.len(),
                accepts == (|w: AerospaceWindowView| self.accepts(target@, w)),
                flags@ =~= windows.deep_view().take(i as int).map_values(accepts),
            decreases windows.len() - i,
        {
            let w = &windows[i];
            let flag = match &target.target_window.bundle_id {
                Some(b) => text_eq(w.app_bundle_id.as_str(), b.as_str()),
                None => false,
            };
            flags.push(flag);
            assert(windows.deep_view()[i as int] == w@);
            assert(windows.deep_view().take(i + 1) =~= windows.deep_view().take(i as int).push(w@));
            i = i + 1;
        }
        assert(windows.deep_view().take(i as int) =~= windows.deep_view());
        answer_from_flags(windows, target, &flags, Ghost(accepts))
    }
}

/// Picks the window whose application name equals the entry's, where
/// exactly one window has it.
pub struct UniqueAppNameResolverRule {}

/// Whether `window` has the application name that the entry names (compared
/// as written, case and all); an entry without an app accepts nothing.
pub open spec fn same_app_name(target: ResolveTargetView, window: AerospaceWindowView) -> bool {
    match target.window.app {
        Some(a) => window.app_name == a,
        None => false,
    }
}

impl WindowResolverRule for UniqueAppNameResolverRule {
    open spec fn accepts(&self, target: ResolveTargetView, window: AerospaceWindowView) -> bool {
        same_app_name(target, window)
    }

    fn match_window(&self, windows: &[AerospaceWindow], target: &ResolveTarget) -> (r: Option<ResolvedWindowMatch>) {
        let ghost accepts = |w: AerospaceWindowView| self.accepts(target@, w);
        let mut flags: Vec<bool> = Vec::new();
        let mut i: usize = 0;
        while i < windows.len()
            invariant
                i <= windows.len(),
                accepts == (|w: AerospaceWindowView| self.accepts(target@, w)),
                flags@ =~= windows.deep_view().take(i as int).map_values(accepts),
            decreases windows.len() - i,
        {
            let w = &windows[i];
            let flag = match &target.target_window.app {
                Some(a) => text_eq(w.app_name.as_str(), a.as_str()),
                None => false,
            };
            flags.push(flag);
            assert(windows.deep_view()[i as int] == w@);
            assert(windows.deep_view().take(i + 1) =~= windows.deep_view().take(i as int).push(w@));
            i = i + 1;
        }
        assert(windows.deep_view().take(i as int) =~= windows.deep_view());
        answer_from_flags(windows, target, &flags, Ghost(accepts))
    }
}

} // verus!
