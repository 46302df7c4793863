//! Where stages are stored: `.toml` files in the stage directory.

use vstd::prelude::*;
use vstd::string::StringExecFns;

use crate::config::Config;
use crate::stage::{Stage, StageView};
use vstd::relations::sorted_by;
use vstd::string::StrSliceExecFns;
use crate::text::text_eq;

verus! {

/// A failure to find, read or write a stage file.
#[derive(Debug)]
pub enum StageRepositoryError {
    CreateFile { path: String, message: String },
    Save { path: String, message: String },
    ReadFile { path: String, message: String },
    Deserialize { path: String, message: String },
    NotADirectory { path: String },
    InvalidStageFilePath { path: String },
    ReadDir { path: String, message: String },
    ReadDirEntry { path: String, message: String },
}

/// What `std::path::Path::extension` returns for a path: the part of its
/// file name after the last `.`, where there is one that does not start the
/// file name.
pub uninterp spec fn spec_path_extension(path: Seq<char>) -> Option<Seq<char>>;

/// Calls `std::path::Path::extension` on `path`.
#[verifier::external_body]
fn path_extension(path: &str) -> (r: Option<String>)
    ensures
        r.deep_view() == spec_path_extension(path@),
{
    std::path::Path::new(path).extension().map(|e| e.to_string_lossy().into_owned())
}

/// What `std::path::Path::with_extension` returns for a path and an
/// extension: the path with the extension of its file name replaced, or
/// added where it has none.
pub uninterp spec fn spec_path_with_extension(path: Seq<char>, extension: Seq<char>) -> Seq<char>;

/// Calls `std::path::Path::with_extension`, which panics where the
/// extension holds a path separator (`/`, and `\\` on Windows); such an
/// extension is not admitted.
#[verifier::external_body]
fn path_with_extension(path: &str, extension: &str) -> (r: String)
    requires
        !extension@.contains('/'),
        !extension@.contains('\\'),
    ensures
        r@ == spec_path_with_extension(path@, extension@),
{
    std::path::Path::new(path).with_extension(extension).to_string_lossy().into_owned()
}

/// What `std::path::Path::join` returns: `name` below `base`, or `name`
/// itself where it is absolute.
pub uninterp spec fn spec_path_join(base: Seq<char>, name: Seq<char>) -> Seq<char>;

/// Calls `std::path::Path::join`.
#[verifier::external_body]
fn path_join(base: &str, name: &str) -> (r: String)
    ensures
        r@ == spec_path_join(base@, name@),
{
    std::path::Path::new(base).join(name).to_string_lossy().into_owned()
}

/// The stage file for `path`: `path` with `.toml` added where it has no
/// extension, `path` itself where its extension is `toml`, and a refusal
/// for any other extension.
pub open spec fn normalize_spec(path: Seq<char>) -> Result<Seq<char>, Seq<char>> {
    match spec_path_extension(path) {
        None => Ok(spec_path_with_extension(path, "toml"@)),
        Some(ext) => if ext == "toml"@ { Ok(path) } else { Err(path) },
    }
}

/// The stage file for `path` (see [`normalize_spec`]); a path with another
/// extension than `toml` is refused as
/// [`StageRepositoryError::InvalidStageFilePath`].
pub fn normalize_stage_filepath(path: &str) -> (r: Result<String, StageRepositoryError>)
    ensures
        match r {
            Ok(p) => normalize_spec(path@) == Ok::<Seq<char>, Seq<char>>(p@),
            Err(e) => e matches StageRepositoryError::InvalidStageFilePath { path: refused }
                && normalize_spec(path@) == Err::<Seq<char>, Seq<char>>(refused@),
        },
{
    proof {
        reveal_strlit("toml");
    }
    match path_extension(path) {
        None => Ok(path_with_extension(path, "toml")),
        Some(ext) => {
            if text_eq(ext.as_str(), "toml") {
                Ok(String::from_str(path))
            } else {
                Err(StageRepositoryError::InvalidStageFilePath { path: String::from_str(path) })
            }
        },
    }
}

/// Whether `path` names a stage file: its extension is `toml`.
pub fn is_stage_file(path: &str) -> (r: bool)
    ensures
        r == (spec_path_extension(path@) == Some("toml"@)),
{
    proof {
        reveal_strlit("toml");
    }
    match path_extension(path) {
        Some(ext) => text_eq(ext.as_str(), "toml"),
        None => false,
    }
}

/// A stage and the file it was read from.
#[derive(Debug)]
pub struct StageFile {
    pub path: String,
    pub stage: Stage,
}

/// The stage files in the configured stage directory.
pub struct StageRepository {}

impl StageRepository {
    /// The file that `stage_name` names below the stage directory.
    pub fn stage_path(config: &Config, stage_name: &str) -> (r: String)
        ensures
            r@ == spec_path_join(config.stage_directory@, stage_name@),
    {
        path_join(config.stage_directory.as_str(), stage_name)
    }

    /// The stage file that `stage_name` names below the stage directory,
    /// normalized (see [`normalize_spec`]).
    pub fn relative_stage_file(config: &Config, stage_name: &str) -> (r: Result<String, StageRepositoryError>)
        ensures
            match r {
                Ok(p) => normalize_spec(spec_path_join(config.stage_directory@, stage_name@)) == Ok::<Seq<char>, Seq<char>>(p@),
                Err(e) => e matches StageRepositoryError::InvalidStageFilePath { path: refused }
                    && normalize_spec(spec_path_join(config.stage_directory@, stage_name@)) == Err::<Seq<char>, Seq<char>>(refused@),
            },
    {
        let full_path = Self::stage_path(config, stage_name);
        normalize_stage_filepath(full_path.as_str())
    }
}

/// What `std::path::Path::file_name` returns for a path: its last
/// component, where that is a normal file name.
pub uninterp spec fn spec_path_file_name(path: Seq<char>) -> Option<Seq<char>>;

/// Calls `std::path::Path::file_name` on `path`.
#[verifier::external_body]
pub(crate) fn path_file_name(path: &str) -> (r: Option<String>)
    ensures
        r.deep_view() == spec_path_file_name(path@),
{
    std::path::Path::new(path).file_name().map(|n| n.to_string_lossy().into_owned())
}

/// Whether `a` comes before `b` or equals it, character by character (for
/// UTF-8 text, the order of the bytes).
pub open spec fn text_le(a: Seq<char>, b: Seq<char>) -> bool
    decreases a.len(),
{
    if a.len() == 0 {
        true
    } else if b.len() == 0 {
        false
    } else if a[0] == b[0] {
        text_le(a.drop_first(), b.drop_first())
    } else {
        (a[0] as int) < (b[0] as int)
    }
}

proof fn lemma_text_le_total(a: Seq<char>, b: Seq<char>)
    ensures
        text_le(a, b) || text_le(b, a),
    decreases a.len(),
{
    if a.len() > 0 && b.len() > 0 {
        if a[0] == b[0] {
            lemma_text_le_total(a.drop_first(), b.drop_first());
        }
    }
}

proof fn lemma_text_le_transitive(a: Seq<char>, b: Seq<char>, c: Seq<char>)
    requires
        text_le(a, b),
        text_le(b, c),
    ensures
        text_le(a, c),
    decreases a.len(),
{
    if a.len() > 0 && b.len() > 0 && c.len() > 0 && a[0] == b[0] && b[0] == c[0] {
        lemma_text_le_transitive(a.drop_first(), b.drop_first(), c.drop_first());
    }
}

/// The order of file names: no name first, then names character by
/// character.
pub open spec fn name_le(a: Option<Seq<char>>, b: Option<Seq<char>>) -> bool {
    match (a, b) {
        (None, _) => true,
        (Some(_), None) => false,
        (Some(x), Some(y)) => text_le(x, y),
    }
}

/// Compares two texts (see [`text_le`]).
fn text_le_exec(a: &str, b: &str) -> (r: bool)
    ensures
        r == text_le(a@, b@),
{
    let la = a.unicode_len();
    let lb = b.unicode_len();
    let mut i: usize = 0;
    assert(a@.skip(0) =~= a@);
    assert(b@.skip(0) =~= b@);
    while i < la && i < lb
        invariant
            la == a@.len(),
            lb == b@.len(),
            i <= la,
            i <= lb,
            text_le(a@, b@) == text_le(a@.skip(i as int), b@.skip(i as int)),
        decreases la - i,
    {
        let ca = a.get_char(i);
        let cb = b.get_char(i);
        assert(a@.skip(i as int)[0] == ca);
        assert(b@.skip(i as int)[0] == cb);
        if ca != cb {
            return (ca as u32) < (cb as u32);
        }
        assert(a@.skip(i as int).drop_first() =~= a@.skip(i + 1));
        assert(b@.skip(i as int).drop_first() =~= b@.skip(i + 1));
        i = i + 1;
    }
    i == la
}

/// The contents of a [`StageFile`].
pub struct StageFileView {
    pub path: Seq<char>,
    pub stage: StageView,
}

impl DeepView for StageFile {
    type V = StageFileView;

    open spec fn deep_view(&self) -> StageFileView {
        StageFileView { path: self.path@, stage: self.stage@ }
    }
}

/// The order of stage files: by file name.
pub open spec fn file_name_le() -> spec_fn(StageFileView, StageFileView) -> bool {
    |a: StageFileView, b: StageFileView| name_le(spec_path_file_name(a.path), spec_path_file_name(b.path))
}

fn file_name_le_exec(a: &Option<String>, b: &Option<String>) -> (r: bool)
    ensures
        r == name_le(a.deep_view(), b.deep_view()),
{
    match (a, b) {
        (None, _) => true,
        (Some(_), None) => false,
        (Some(x), Some(y)) => text_le_exec(x.as_str(), y.as_str()),
    }
}

proof fn lemma_text_le_reflexive(a: Seq<char>)
    ensures
        text_le(a, a),
    decreases a.len(),
{
    if a.len() > 0 {
        lemma_text_le_reflexive(a.drop_first());
    }
}

/// Whether a stage file's file name is `name`.
pub open spec fn has_file_name(name: Option<Seq<char>>) -> spec_fn(StageFileView) -> bool {
    |f: StageFileView| spec_path_file_name(f.path) == name
}

/// Inserting a file in front of every file whose name comes after its own
/// keeps, for each name, the files of that name in the order they came.
proof fn lemma_insert_keeps_name_order(before: Seq<StageFileView>, p: int, fv: StageFileView, taken: Seq<StageFileView>)
    requires
        0 <= p <= before.len(),
        forall|q: int| p <= q < before.len() ==> !name_le(#[trigger] spec_path_file_name(before[q].path), spec_path_file_name(fv.path)),
        forall|name: Option<Seq<char>>| #[trigger] before.filter(has_file_name(name)) == taken.filter(has_file_name(name)),
    ensures
        forall|name: Option<Seq<char>>| #[trigger] before.insert(p, fv).filter(has_file_name(name)) == taken.push(fv).filter(has_file_name(name)),
{
    let head = before.take(p);
    let tail = before.skip(p);
    assert(before =~= head + tail);
    assert(before.insert(p, fv) =~= (head + seq![fv]) + tail);
    assert(seq![fv] =~= Seq::<StageFileView>::empty().push(fv));
    assert forall|name: Option<Seq<char>>| #[trigger] before.insert(p, fv).filter(has_file_name(name)) == taken.push(fv).filter(has_file_name(name)) by {
        let pred = has_file_name(name);
        Seq::filter_distributes_over_add(head, tail, pred);
        Seq::filter_distributes_over_add(head + seq![fv], tail, pred);
        Seq::filter_distributes_over_add(head, seq![fv], pred);
        Seq::<StageFileView>::empty().lemma_filter_push(fv, pred);
        assert(Seq::<StageFileView>::empty().filter(pred) =~= Seq::<StageFileView>::empty()) by {
            reveal(Seq::filter);
        }
        taken.lemma_filter_push(fv, pred);
        assert(before.filter(pred) == taken.filter(pred));
        if pred(fv) {
            let key = spec_path_file_name(fv.path);
            match key {
                Some(x) => lemma_text_le_reflexive(x),
                None => {},
            }
            assert(name_le(key, key));
            assert forall|q: int| 0 <= q < tail.len() implies !pred(#[trigger] tail[q]) by {
                assert(tail[q] == before[p + q]);
            }
            assert(tail.all(|x: StageFileView| !pred(x)));
            tail.lemma_all_neg_filter_empty(pred);
            assert(tail.filter(pred) =~= Seq::<StageFileView>::empty());
        }
        assert(before.insert(p, fv).filter(pred) =~= taken.push(fv).filter(pred));
    }
}

impl StageRepository {
    /// The stage files ordered by file name; files with equal names keep
    /// their order.
    pub fn sort_by_file_name(files: Vec<StageFile>) -> (r: Vec<StageFile>)
        ensures
            sorted_by(r.deep_view(), file_name_le()),
            r.deep_view().to_multiset() == files.deep_view().to_multiset(),
            forall|name: Option<Seq<char>>| #[trigger] r.deep_view().filter(has_file_name(name)) == files.deep_view().filter(has_file_name(name)),
    {
        let ghost leq = file_name_le();
        let ghost all = files.deep_view();
        let mut input = files;
        let mut out: Vec<StageFile> = Vec::new();
        let mut keys: Vec<Option<String>> = Vec::new();
        let ghost mut taken: Seq<StageFileView> = Seq::empty();
        assert(input.deep_view() =~= all.skip(0));
        broadcast use vstd::seq_lib::group_to_multiset_ensures;
        while input.len() > 0
            invariant
                leq == file_name_le(),
                all.len() == taken.len() + input.len(),
                taken =~= all.take(taken.len() as int),
                input.deep_view() =~= all.skip(taken.len() as int),
                sorted_by(out.deep_view(), leq),
                out.deep_view().to_multiset() == taken.to_multiset(),
                forall|name: Option<Seq<char>>| #[trigger] out.deep_view().filter(has_file_name(name)) == taken.filter(has_file_name(name)),
                keys@.len() == out@.len(),
                forall|q: int| 0 <= q < keys@.len() ==> #[trigger] keys@[q].deep_view() == spec_path_file_name(out@[q].path@),
            decreases input.len(),
        {
            let ghost input_before = input.deep_view();
            let file = input.remove(0);
            let ghost fv = file.deep_view();
            assert(input_before[0] == fv);
            assert(fv == all[taken.len() as int]);
            assert(input.deep_view() =~= input_before.drop_first());
            let key = path_file_name(file.path.as_str());
            let mut p: usize = out.len();
            while p > 0
                invariant
                    p <= out@.len(),
                    keys@.len() == out@.len(),
                    forall|q: int| 0 <= q < keys@.len() ==> #[trigger] keys@[q].deep_view() == spec_path_file_name(out@[q].path@),
                    key.deep_view() == spec_path_file_name(file.path@),
                    forall|q: int| p <= q < out@.len() ==> !name_le(#[trigger] spec_path_file_name(out@[q].path@), spec_path_file_name(file.path@)),
                ensures
                    p == 0 || name_le(spec_path_file_name(out@[p - 1].path@), spec_path_file_name(file.path@)),
                decreases p,
            {
                if file_name_le_exec(&keys[p - 1], &key) {
                    break;
                }
                p = p - 1;
            }
            let ghost before = out.deep_view();
            proof {
                assert forall|q: int| 0 <= q < before.len() implies before[q] == out@[q].deep_view() by {}
                assert forall|q: int| p <= q < before.len() implies leq(fv, #[trigger] before[q]) by {
                    let kq = spec_path_file_name(before[q].path);
                    let kf = spec_path_file_name(fv.path);
                    assert(!name_le(kq, kf));
                    match (kq, kf) {
                        (Some(x), Some(y)) => {
                            lemma_text_le_total(x, y);
                        },
                        _ => {},
                    }
                }
                assert forall|q: int| 0 <= q < p implies leq(#[trigger] before[q], fv) by {
                    if p > 0 {
                        let last = before[p - 1];
                        assert(name_le(spec_path_file_name(last.path), spec_path_file_name(fv.path)));
                        if q < p - 1 {
                            assert(leq(before[q], last));
                            let a = spec_path_file_name(before[q].path);
                            let b = spec_path_file_name(last.path);
                            let c = spec_path_file_name(fv.path);
                            match (a, b, c) {
                                (Some(x), Some(y), Some(z)) => {
                                    lemma_text_le_transitive(x, y, z);
                                },
                                _ => {},
                            }
                        }
                    }
                }
            }
            proof {
                assert forall|q: int| p <= q < before.len() implies !name_le(#[trigger] spec_path_file_name(before[q].path), spec_path_file_name(fv.path)) by {
                    assert(before[q] == out@[q].deep_view());
                }
                lemma_insert_keeps_name_order(before, p as int, fv, taken);
            }
            out.insert(p, file);
            keys.insert(p, key);
            proof {
                assert(out.deep_view() =~= before.insert(p as int, fv));
                assert forall|a: int, b: int| 0 <= a < b < out.deep_view().len() implies leq(out.deep_view()[a], out.deep_view()[b]) by {
                    let o = out.deep_view();
                    if a < p && b < p {
                        assert(o[a] == before[a] && o[b] == before[b]);
                    } else if a < p && b == p {
                    } else if a < p {
                        assert(o[a] == before[a] && o[b] == before[b - 1]);
                        assert(leq(before[a], before[b - 1]));
                    } else if a == p {
                        assert(o[b] == before[b - 1]);
                    } else {
                        assert(o[a] == before[a - 1] && o[b] == before[b - 1]);
                    }
                }
                before.insert_ensures(p as int, fv);
                vstd::seq_lib::to_multiset_insert(before, p as int, fv);
                assert(out.deep_view().to_multiset() == before.to_multiset().insert(fv));
                vstd::seq_lib::to_multiset_build(taken, fv);
                taken = taken.push(fv);
                assert(taken =~= all.take(taken.len() as int));
                assert(input.deep_view() =~= all.skip(taken.len() as int));
            }
        }
        assert(taken =~= all);
        out
    }
}

/// What a repository error says.
pub open spec fn repository_message(e: StageRepositoryError) -> Seq<char> {
    match e {
        StageRepositoryError::CreateFile { path, .. } => "failed to create stage file '"@ + path@ + "'"@,
        StageRepositoryError::Save { path, .. } => "failed to save stage to '"@ + path@ + "'"@,
        StageRepositoryError::ReadFile { path, .. } => "failed to read stage file '"@ + path@ + "'"@,
        StageRepositoryError::Deserialize { path, .. } => "failed to parse stage file '"@ + path@ + "'"@,
        StageRepositoryError::NotADirectory { path } => "'"@ + path@ + "' is not a directory"@,
        StageRepositoryError::InvalidStageFilePath { path } => "invalid stage file path: "@ + path@,
        StageRepositoryError::ReadDir { path, .. } => "failed to read directory '"@ + path@ + "'"@,
        StageRepositoryError::ReadDirEntry { path, .. } => "failed to read directory entry in '"@ + path@ + "'"@,
    }
}

impl StageRepositoryError {
    /// What went wrong, in words (see [`repository_message`]); the cause, if
    /// any, is kept in the `message` field.
    pub fn message(&self) -> (r: String)
        ensures
            r@ == repository_message(*self),
    {
        let (before, path, after) = match self {
            StageRepositoryError::CreateFile { path, .. } => ("failed to create stage file '", path, "'"),
            StageRepositoryError::Save { path, .. } => ("failed to save stage to '", path, "'"),
            StageRepositoryError::ReadFile { path, .. } => ("failed to read stage file '", path, "'"),
            StageRepositoryError::Deserialize { path, .. } => ("failed to parse stage file '", path, "'"),
            StageRepositoryError::NotADirectory { path } => ("'", path, "' is not a directory"),
            StageRepositoryError::InvalidStageFilePath { path } => ("invalid stage file path: ", path, ""),
            StageRepositoryError::ReadDir { path, .. } => ("failed to read directory '", path, "'"),
            StageRepositoryError::ReadDirEntry { path, .. } => ("failed to read directory entry in '", path, "'"),
        };
        let mut out = String::from_str(before);
        out.append(path.as_str());
        out.append(after);
        proof {
            reveal_strlit("");
        }
        out
    }
}

} // verus!
