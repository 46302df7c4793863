//! Rules that pick a window by its title: the same title, or a similar one.

use vstd::prelude::*;
use vstd::string::StrSliceExecFns;

use crate::aerospace::types::{AerospaceWindow, AerospaceWindowView};
use crate::restore::rule::{
    answer_from_flags, find_only_true, is_only_true, resolved_for, resolved_match, WindowResolverRule,
};
use crate::restore::types::{claims_app, ResolveTarget, ResolveTargetView, ResolvedWindowMatch, ResolvedWindowMatchView};
use crate::text::{spec_to_lowercase, text_eq, to_lowercase};

verus! {

/// What building `pattern` with `regex::RegexBuilder`, case-insensitively,
/// and asking `Regex::is_match` about `haystack` yields: `None` where the
/// pattern does not build, else whether the pattern matches somewhere in
/// `haystack`, letters compared without regard to case.
pub uninterp spec fn spec_case_insensitive_match(pattern: Seq<char>, haystack: Seq<char>) -> Option<bool>;

/// Builds `pattern` with `regex::RegexBuilder::new(..).case_insensitive(true)`
/// and, where it builds, calls `Regex::is_match` on `haystack`.
#[verifier::external_body]
fn case_insensitive_match(pattern: &str, haystack: &str) -> (r: Option<bool>)
    ensures
        r == spec_case_insensitive_match(pattern@, haystack@),
{
    regex::RegexBuilder::new(pattern).case_insensitive(true).build().ok().map(|re| re.is_match(haystack))
}

/// The smallest of three numbers.
pub open spec fn min3(a: nat, b: nat, c: nat) -> nat {
    if a <= b && a <= c {
        a
    } else if b <= c {
        b
    } else {
        c
    }
}

/// The Levenshtein distance: the fewest insertions, deletions and
/// substitutions of single characters that turn `a` into `b`.
pub open spec fn levenshtein_spec(a: Seq<char>, b: Seq<char>) -> nat
    decreases a.len() + b.len(),
{
    if a.len() == 0 {
        b.len()
    } else if b.len() == 0 {
        a.len()
    } else {
        min3(
            levenshtein_spec(a.drop_last(), b) + 1,
            levenshtein_spec(a, b.drop_last()) + 1,
            levenshtein_spec(a.drop_last(), b.drop_last()) + if a.last() == b.last() { 0nat } else { 1nat },
        )
    }
}

/// Calls `strsim::levenshtein`, the number of single-character insertions,
/// deletions and substitutions that it takes, at the least, to turn `a` into
/// `b`, counted over characters.
#[verifier::external_body]
fn levenshtein(a: &str, b: &str) -> (r: usize)
    ensures
        r == levenshtein_spec(a@, b@),
{
    strsim::levenshtein(a, b)
}

/// Whether a window title matches the entry's title: equal once both are
/// lowercased, or, where the entry's title reads as a regular expression,
/// containing a match of it, letters compared without regard to case.
pub open spec fn title_matches(title: Seq<char>, window_title: Seq<char>) -> bool {
    spec_to_lowercase(title) == spec_to_lowercase(window_title)
        || spec_case_insensitive_match(title, window_title) == Some(true)
}

/// Picks the window of the entry's application whose title matches the
/// entry's title, where exactly one window does.
pub struct TitleMatchResolverRule {}

/// Whether `window` belongs to the entry's application and its title
/// matches the entry's; an entry without a title accepts nothing.
pub open spec fn same_title(target: ResolveTargetView, window: AerospaceWindowView) -> bool {
    match target.window.title {
        Some(t) => claims_app(target.window, window) && title_matches(t, window.window_title),
        None => false,
    }
}

impl WindowResolverRule for TitleMatchResolverRule {
    open spec fn accepts(&self, target: ResolveTargetView, window: AerospaceWindowView) -> bool {
        same_title(target, window)
    }

    fn match_window(&self, windows: &[AerospaceWindow], target: &ResolveTarget) -> (r: Option<ResolvedWindowMatch>) {
        let ghost accepts = |w: AerospaceWindowView| self.accepts(target@, w);
        let title = match &target.target_window.title {
            Some(t) => t.as_str(),
            None => {
                assert forall|m: int| !is_only_true(windows.deep_view().map_values(accepts), m) by {}
                return None;
            },
        };
        let title_lowercase = to_lowercase(title);
        let mut flags: Vec<bool> = Vec::new();
        let mut i: usize = 0;
        while i < windows.len()
            invariant
                i <= windows.len(),
                accepts == (|w: AerospaceWindowView| self.accepts(target@, w)),
                target@.window.title == Some(title@),
                title_lowercase@ == spec_to_lowercase(title@),
                flags@ =~= windows.deep_view().take(i as int).map_values(accepts),
            decreases windows.len() - i,
        {
            let w = &windows[i];
            let flag = target.matches_window_app(w) && (
                text_eq(title_lowercase.as_str(), to_lowercase(w.window_title.as_str()).as_str())
                    || case_insensitive_match(title, w.window_title.as_str()) == Some(true)
            );
            flags.push(flag);
            assert(windows.deep_view()[i as int] == w@);
            assert(windows.deep_view().take(i + 1) =~= windows.deep_view().take(i as int).push(w@));
            i = i + 1;
        }
        assert(windows.deep_view().take(i as int) =~= windows.deep_view());
        answer_from_flags(windows, target, &flags, Ghost(accepts))
    }
}

/// Whether two texts of `a_len` and `b_len` characters, `distance` edits
/// apart, are similar to at least `percent` hundredths: one minus the
/// distance over the longer length reaches `percent / 100`; two empty texts
/// are fully similar.
pub open spec fn similar_enough(a_len: nat, b_len: nat, distance: nat, percent: nat) -> bool {
    let longest = if a_len >= b_len { a_len } else { b_len };
    if longest == 0 {
        true
    } else {
        100 * (longest - distance) >= percent * longest
    }
}

/// Decides [`similar_enough`].
pub fn is_similar_enough(a_len: usize, b_len: usize, distance: usize, percent: u32) -> (r: bool)
    ensures
        r == similar_enough(a_len as nat, b_len as nat, distance as nat, percent as nat),
{
    let longest = if a_len >= b_len { a_len } else { b_len };
    if longest == 0 {
        return true;
    }
    let l = longest as u128;
    let d = distance as u128;
    let p = percent as u128;
    assert(p * l <= 0xffff_ffff * 0xffff_ffff_ffff_ffff) by (nonlinear_arith)
        requires p <= 0xffff_ffff, l <= 0xffff_ffff_ffff_ffff;
    100 * l >= 100 * d + p * l
}

/// Picks, among the windows of the entry's application whose titles are
/// similar enough to the entry's, the one whose title is the most similar;
/// where the highest similarity is shared, it picks none. Titles are
/// compared lowercased, by normalized Levenshtein similarity against
/// `threshold`, which counts in hundredths (75 stands for 0.75).
pub struct TitleSimilarityResolverRule {
    pub threshold: u32,
}

/// Whether the lowercased `a` and `b` are similar to at least `percent`
/// hundredths.
pub open spec fn titles_similar(a: Seq<char>, b: Seq<char>, percent: nat) -> bool {
    let la = spec_to_lowercase(a);
    let lb = spec_to_lowercase(b);
    similar_enough(la.len(), lb.len(), levenshtein_spec(la, lb), percent)
}

/// Whether `window` belongs to the entry's application and its title is
/// similar enough to the entry's; an entry without a title accepts nothing.
pub open spec fn similar_title(target: ResolveTargetView, window: AerospaceWindowView, percent: nat) -> bool {
    match target.window.title {
        Some(t) => claims_app(target.window, window) && titles_similar(t, window.window_title, percent),
        None => false,
    }
}

/// How similar the lowercased `a` and `b` are, as a fraction written as
/// numerator and denominator: one minus the edit distance over the longer
/// length; two empty titles are fully similar (1/1).
pub open spec fn similarity(a: Seq<char>, b: Seq<char>) -> (int, int) {
    let la = spec_to_lowercase(a);
    let lb = spec_to_lowercase(b);
    let longest = if la.len() >= lb.len() { la.len() } else { lb.len() };
    if longest == 0 {
        (1, 1)
    } else {
        (longest - levenshtein_spec(la, lb), longest as int)
    }
}

/// Whether the similarity `x` is higher than the similarity `y`.
pub open spec fn more_similar(x: (int, int), y: (int, int)) -> bool {
    x.0 * y.1 > y.0 * x.1
}

/// How similar a window's title is to the entry's.
pub open spec fn title_similarity(target: ResolveTargetView, window: AerospaceWindowView) -> (int, int) {
    match target.window.title {
        Some(t) => similarity(t, window.window_title),
        None => (0, 1),
    }
}

/// Whether the `i`th of `windows` is similar enough to the entry, and more
/// similar than every other window that is.
pub open spec fn is_most_similar(target: ResolveTargetView, windows: Seq<AerospaceWindowView>, percent: nat, i: int) -> bool {
    &&& 0 <= i < windows.len()
    &&& similar_title(target, windows[i], percent)
    &&& forall|j: int| 0 <= j < windows.len() && j != i && #[trigger] similar_title(target, windows[j], percent)
            ==> more_similar(title_similarity(target, windows[i]), title_similarity(target, windows[j]))
}

/// The answer of the similarity rule: the window that is more similar to
/// the entry than every other similar-enough window, sent to the entry's
/// workspace; nothing where no window is similar enough or the highest
/// similarity is shared.
pub open spec fn most_similar(target: ResolveTargetView, windows: Seq<AerospaceWindowView>, percent: nat) -> Option<ResolvedWindowMatchView> {
    if exists|i: int| is_most_similar(target, windows, percent, i) {
        Some(resolved_for(target, windows[choose|i: int| is_most_similar(target, windows, percent, i)]))
    } else {
        None
    }
}

/// The edit distance of two texts is at most the longer length.
pub proof fn lemma_levenshtein_bound(a: Seq<char>, b: Seq<char>)
    ensures
        levenshtein_spec(a, b) <= (if a.len() >= b.len() { a.len() } else { b.len() }),
    decreases a.len() + b.len(),
{
    if a.len() > 0 && b.len() > 0 {
        lemma_levenshtein_bound(a.drop_last(), b.drop_last());
    }
}

/// At most one window is the most similar.
pub proof fn lemma_most_similar_unique(target: ResolveTargetView, windows: Seq<AerospaceWindowView>, percent: nat, i: int, j: int)
    requires
        is_most_similar(target, windows, percent, i),
        is_most_similar(target, windows, percent, j),
    ensures
        i == j,
{
    if i != j {
        assert(similar_title(target, windows[j], percent));
        assert(similar_title(target, windows[i], percent));
        let x = title_similarity(target, windows[i]);
        let y = title_similarity(target, windows[j]);
        assert(more_similar(x, y));
        assert(more_similar(y, x));
    }
}

/// Decides [`more_similar`] for fractions of 64-bit numbers.
fn is_more_similar(n1: u64, d1: u64, n2: u64, d2: u64) -> (r: bool)
    ensures
        r == more_similar((n1 as int, d1 as int), (n2 as int, d2 as int)),
{
    let a = n1 as u128;
    let b = d2 as u128;
    let c = n2 as u128;
    let d = d1 as u128;
    assert(a * b <= 0xffff_ffff_ffff_ffff * 0xffff_ffff_ffff_ffff) by (nonlinear_arith)
        requires a <= 0xffff_ffff_ffff_ffff, b <= 0xffff_ffff_ffff_ffff;
    assert(c * d <= 0xffff_ffff_ffff_ffff * 0xffff_ffff_ffff_ffff) by (nonlinear_arith)
        requires c <= 0xffff_ffff_ffff_ffff, d <= 0xffff_ffff_ffff_ffff;
    a * b > c * d
}

impl WindowResolverRule for TitleSimilarityResolverRule {
    /// Whether `window` is similar enough to the entry to compete.
    open spec fn accepts(&self, target: ResolveTargetView, window: AerospaceWindowView) -> bool {
        similar_title(target, window, self.threshold as nat)
    }

    /// The most similar window, where exactly one is (see [`most_similar`]).
    open spec fn answer(&self, windows: Seq<AerospaceWindowView>, target: ResolveTargetView) -> Option<ResolvedWindowMatchView> {
        most_similar(target, windows, self.threshold as nat)
    }

    fn match_window(&self, windows: &[AerospaceWindow], target: &ResolveTarget) -> (r: Option<ResolvedWindowMatch>) {
        let ghost ws = windows.deep_view();
        let ghost percent = self.threshold as nat;
        let title = match &target.target_window.title {
            Some(t) => t.as_str(),
            None => {
                assert forall|i: int| !is_most_similar(target@, ws, percent, i) by {}
                return None;
            },
        };
        let title_lowercase = to_lowercase(title);
        let title_len = title_lowercase.as_str().unicode_len();
        let mut qualifies: Vec<bool> = Vec::new();
        let mut nums: Vec<u64> = Vec::new();
        let mut dens: Vec<u64> = Vec::new();
        let mut i: usize = 0;
        while i < windows.len()
            invariant
                i <= windows.len(),
                ws == windows.deep_view(),
                percent == self.threshold as nat,
                target@.window.title == Some(title@),
                title_lowercase@ == spec_to_lowercase(title@),
                title_len == title_lowercase@.len(),
                qualifies@.len() == i,
                nums@.len() == i,
                dens@.len() == i,
                forall|k: int| 0 <= k < i ==> #[trigger] qualifies@[k] == similar_title(target@, ws[k], percent),
                forall|k: int| 0 <= k < i && #[trigger] qualifies@[k] ==> (nums@[k] as int, dens@[k] as int) == title_similarity(target@, ws[k]),
            decreases windows.len() - i,
        {
            let w = &windows[i];
            assert(ws[i as int] == w@);
            if target.matches_window_app(w) {
                let window_lowercase = to_lowercase(w.window_title.as_str());
                let window_len = window_lowercase.as_str().unicode_len();
                let distance = levenshtein(title_lowercase.as_str(), window_lowercase.as_str());
                let similar = is_similar_enough(title_len, window_len, distance, self.threshold);
                let longest = if title_len >= window_len { title_len } else { window_len };
                proof {
                    lemma_levenshtein_bound(title_lowercase@, window_lowercase@);
                }
                if longest == 0 {
                    nums.push(1);
                    dens.push(1);
                } else {
                    nums.push((longest - distance) as u64);
                    dens.push(longest as u64);
                }
                qualifies.push(similar);
            } else {
                qualifies.push(false);
                nums.push(0);
                dens.push(1);
            }
            i = i + 1;
        }
        let mut flags: Vec<bool> = Vec::new();
        let mut a: usize = 0;
        while a < windows.len()
            invariant
                a <= windows.len(),
                ws == windows.deep_view(),
                qualifies@.len() == windows.len(),
                nums@.len() == windows.len(),
                dens@.len() == windows.len(),
                forall|k: int| 0 <= k < windows.len() ==> #[trigger] qualifies@[k] == similar_title(target@, ws[k], percent),
                forall|k: int| 0 <= k < windows.len() && #[trigger] qualifies@[k] ==> (nums@[k] as int, dens@[k] as int) == title_similarity(target@, ws[k]),
                flags@.len() == a,
                forall|k: int| 0 <= k < a ==> #[trigger] flags@[k] == is_most_similar(target@, ws, percent, k),
            decreases windows.len() - a,
        {
            let mut best = qualifies[a];
            let mut b: usize = 0;
            while b < windows.len()
                invariant
                    a < windows.len(),
                    b <= windows.len(),
                    ws == windows.deep_view(),
                    qualifies@.len() == windows.len(),
                    nums@.len() == windows.len(),
                    dens@.len() == windows.len(),
                    forall|k: int| 0 <= k < windows.len() ==> #[trigger] qualifies@[k] == similar_title(target@, ws[k], percent),
                    forall|k: int| 0 <= k < windows.len() && #[trigger] qualifies@[k] ==> (nums@[k] as int, dens@[k] as int) == title_similarity(target@, ws[k]),
                    best == (qualifies@[a as int] && forall|j: int| 0 <= j < b && j != a && #[trigger] similar_title(target@, ws[j], percent)
                        ==> more_similar(title_similarity(target@, ws[a as int]), title_similarity(target@, ws[j]))),
                decreases windows.len() - b,
            {
                if best && b != a && qualifies[b] {
                    assert(qualifies@[a as int] && qualifies@[b as int]);
                    if !is_more_similar(nums[a], dens[a], nums[b], dens[b]) {
                        best = false;
                    }
                }
                proof {
                    assert(qualifies@[b as int] == similar_title(target@, ws[b as int], percent));
                }
                b = b + 1;
            }
            flags.push(best);
            a = a + 1;
        }
        match find_only_true(&flags) {
            Some(k) => {
                proof {
                    assert(flags@[k as int]);
                    assert(is_most_similar(target@, ws, percent, k as int));
                    let c = choose|c: int| is_most_similar(target@, ws, percent, c);
                    lemma_most_similar_unique(target@, ws, percent, c, k as int);
                    assert(ws[k as int] == windows@[k as int]@);
                }
                Some(resolved_match(target, &windows[k]))
            },
            None => {
                proof {
                    if exists|c: int| is_most_similar(target@, ws, percent, c) {
                        let c = choose|c: int| is_most_similar(target@, ws, percent, c);
                        assert forall|m: int| 0 <= m < flags@.len() && m != c implies !#[trigger] flags@[m] by {
                            if flags@[m] {
                                lemma_most_similar_unique(target@, ws, percent, c, m);
                            }
                        }
                        assert(is_only_true(flags@, c));
                    }
                }
                None
            },
        }
    }
}

} // verus!
