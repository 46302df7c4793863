//! The rule that picks the window already on the entry's workspace.

use vstd::prelude::*;

use crate::aerospace::types::{AerospaceWindow, AerospaceWindowView};
use crate::restore::rule::{answer_from_flags, WindowResolverRule};
use crate::restore::types::{claims_app, ResolveTarget, ResolveTargetView, ResolvedWindowMatch};
use crate::text::text_eq;

verus! {

/// Matches against windows which are already on the target workspace if they
/// are from the target application. The rule only matches if there is
/// exactly one window of this app on the target workspace.
pub struct TargetWorkspaceResolverRule {}

/// Whether `window` is on the entry's workspace and belongs to the entry's
/// application.
pub open spec fn on_target_workspace(target: ResolveTargetView, window: AerospaceWindowView) -> bool {
    window.workspace == target.workspace.name && claims_app(target.window, window)
}

impl WindowResolverRule for TargetWorkspaceResolverRule {
    open spec fn accepts(&self, target: ResolveTargetView, window: AerospaceWindowView) -> bool {
        on_target_workspace(target, window)
    }

    fn match_window(&self, windows: &[AerospaceWindow], target: &ResolveTarget) -> (r: Option<ResolvedWindowMatch>) {
        let ghost accepts = |w: AerospaceWindowView| self.accepts(target@, w);
        let mut flags: Vec<bool> = Vec::new();
        let mut i: usize = 0;
        while i < windows.len()
            invariant
                i <= windows.len(),
                accepts == (|w: AerospaceWindowView| self.accepts(target@, w)),
                flags@ =~= windows.deep_view().take(i as int).map_values(accepts),
            decreases windows.len() - i,
        {
            let w = &windows[i];
            let flag = text_eq(w.workspace.as_str(), target.target_workspace.name.as_str())
                && target.matches_window_app(w);
            flags.push(flag);
            assert(windows.deep_view()[i as int] == w@);
            assert(windows.deep_view().take(i + 1) =~= windows.deep_view().take(i as int).push(w@));
            i = i + 1;
        }
        assert(windows.deep_view().take(i as int) =~= windows.deep_view());
        answer_from_flags(windows, target, &flags, Ghost(accepts))
    }
}

} // verus!
