//! The capture command's handling of its arguments.

use vstd::prelude::*;
use vstd::string::{StrSliceExecFns, StringExecFns};

use crate::capture::texts;
use crate::text::{trim_spec, trim_text};

verus! {

/// The arguments of the capture command.
pub struct CaptureCommandHandler {
    pub output: Option<String>,
    pub name: Option<String>,
    pub workspaces: Option<String>,
    pub default_workspace: Option<String>,
    pub stdout_output: bool,
}

/// The pieces of `s` between commas, in order; a text without commas is a
/// single piece, and empty pieces count.
pub open spec fn split_commas(s: Seq<char>) -> Seq<Seq<char>>
    decreases s.len(),
{
    if s.len() == 0 {
        seq![Seq::empty()]
    } else {
        let pieces = split_commas(s.drop_last());
        if s.last() == ',' {
            pieces.push(Seq::empty())
        } else {
            pieces.update(pieces.len() - 1, pieces.last().push(s.last()))
        }
    }
}

proof fn lemma_split_commas_nonempty(s: Seq<char>)
    ensures
        split_commas(s).len() >= 1,
    decreases s.len(),
{
    if s.len() > 0 {
        lemma_split_commas_nonempty(s.drop_last());
    }
}

/// Whether a text holds at least one character.
pub open spec fn is_nonempty(text: Seq<char>) -> bool {
    text.len() > 0
}

/// The trimmed pieces of `s` between commas, without the empty ones.
pub open spec fn workspace_list_spec(s: Seq<char>) -> Seq<Seq<char>> {
    split_commas(s).map_values(|p: Seq<char>| trim_spec(p)).filter(|p: Seq<char>| is_nonempty(p))
}

/// The trimmed pieces, without the empty ones.
pub open spec fn kept_pieces(pieces: Seq<Seq<char>>) -> Seq<Seq<char>> {
    pieces.map_values(|p: Seq<char>| trim_spec(p)).filter(|p: Seq<char>| is_nonempty(p))
}

proof fn lemma_kept_pieces_push(pieces: Seq<Seq<char>>, piece: Seq<char>)
    ensures
        kept_pieces(pieces.push(piece)) == if is_nonempty(trim_spec(piece)) {
            kept_pieces(pieces).push(trim_spec(piece))
        } else {
            kept_pieces(pieces)
        },
{
    let f = |p: Seq<char>| trim_spec(p);
    let keep = |p: Seq<char>| is_nonempty(p);
    assert(pieces.push(piece).map_values(f) =~= pieces.map_values(f).push(trim_spec(piece)));
    pieces.map_values(f).lemma_filter_push(trim_spec(piece), keep);
}

/// Appends the trimmed `piece` to `out` unless it is empty.
fn push_trimmed<'a>(out: &mut Vec<&'a str>, piece: &'a str)
    ensures
        texts(final(out)@) == if is_nonempty(trim_spec(piece@)) {
            texts(old(out)@).push(trim_spec(piece@))
        } else {
            texts(old(out)@)
        },
{
    let trimmed = trim_text(piece);
    if trimmed.unicode_len() > 0 {
        let ghost before = out@;
        out.push(trimmed);
        assert(texts(out@) =~= texts(before).push(trimmed@));
    }
}

/// The workspace names of a comma-separated list: each piece trimmed, the
/// empty ones dropped (see [`workspace_list_spec`]).
pub fn parse_workspace_list(workspaces: &str) -> (r: Vec<&str>)
    ensures
        texts(r@) == workspace_list_spec(workspaces@),
{
    let n = workspaces.unicode_len();
    let mut out: Vec<&str> = Vec::new();
    let mut start: usize = 0;
    let mut i: usize = 0;
    let ghost mut done: Seq<Seq<char>> = Seq::empty();
    assert(workspaces@.take(0) =~= Seq::<char>::empty());
    assert(workspaces@.subrange(0, 0) =~= Seq::<char>::empty());
    assert(split_commas(Seq::<char>::empty()) =~= done.push(workspaces@.subrange(0, 0)));
    assert(kept_pieces(done) =~= Seq::<Seq<char>>::empty()) by {
        reveal(Seq::filter);
    }
    while i < n
        invariant
            n == workspaces@.len(),
            start <= i <= n,
            split_commas(workspaces@.take(i as int)) == done.push(workspaces@.subrange(start as int, i as int)),
            texts(out@) == kept_pieces(done),
        decreases n - i,
    {
        let c = workspaces.get_char(i);
        proof {
            assert(workspaces@.take(i + 1).drop_last() =~= workspaces@.take(i as int));
            assert(workspaces@.take(i + 1).last() == c);
        }
        if c == ',' {
            let piece = workspaces.substring_char(start, i);
            push_trimmed(&mut out, piece);
            proof {
                lemma_kept_pieces_push(done, piece@);
                done = done.push(piece@);
                assert(workspaces@.subrange(i + 1, i + 1) =~= Seq::<char>::empty());
            }
            start = i + 1;
        } else {
            proof {
                assert(workspaces@.subrange(start as int, i + 1) =~= workspaces@.subrange(start as int, i as int).push(c));
                assert(done.push(workspaces@.subrange(start as int, i as int)).update(done.len() as int, workspaces@.subrange(start as int, i + 1))
                    =~= done.push(workspaces@.subrange(start as int, i + 1)));
            }
        }
        i = i + 1;
    }
    let last = workspaces.substring_char(start, n);
    push_trimmed(&mut out, last);
    proof {
        lemma_kept_pieces_push(done, last@);
        assert(workspaces@.take(n as int) =~= workspaces@);
    }
    out
}

/// The name of a captured stage: the explicit name, else the output file
/// name.
pub fn resolve_captured_stage_name<'a>(name: Option<&'a str>, output: Option<&'a str>) -> (r: Option<&'a str>)
    ensures
        r == (if name is Some { name } else { output }),
{
    match name {
        Some(n) => Some(n),
        None => output,
    }
}

impl CaptureCommandHandler {
    /// The stage file to write, or `None` for standard output: the output
    /// file where one is given. Asking for standard output and giving an
    /// output file at once is refused.
    pub fn output_file(&self) -> (r: Result<Option<&str>, String>)
        ensures
            match r {
                Ok(file) => !(self.stdout_output && self.output is Some) && file.deep_view() == self.output.deep_view(),
                Err(message) => self.stdout_output && self.output is Some
                    && message@ == "--stdout output cannot be used when output is specified"@,
            },
    {
        if self.stdout_output && self.output.is_some() {
            return Err(String::from_str("--stdout output cannot be used when output is specified"));
        }
        match &self.output {
            Some(file) => Ok(Some(file.as_str())),
            None => Ok(None),
        }
    }
}

} // verus!
