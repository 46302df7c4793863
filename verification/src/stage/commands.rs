//! The commands that list and show stages: their arguments, and what the
//! listing shows of each stage file.

use vstd::prelude::*;
use vstd::string::StringExecFns;

use crate::common::format::{print_table, print_table_spec, table_texts, PrintTableError};
use crate::stage::repository::{path_file_name, spec_path_file_name, StageFile, StageFileView};

verus! {

/// The arguments of the list command: JSON output or a table.
#[derive(Debug)]
pub struct StageListCommandHandler {
    pub json_output: bool,
}

/// The arguments of the show command: the stage file to show.
#[derive(Debug)]
pub struct StageShowCommandHandler {
    pub stage_path: String,
}

/// What the listing shows of a stage file: the stage's name, the file's
/// name, and its path.
#[derive(Debug)]
pub struct StageListEntry {
    pub stage_name: Option<String>,
    pub file_name: Option<String>,
    pub file_path: String,
}

/// The contents of a [`StageListEntry`].
pub struct StageListEntryView {
    pub stage_name: Option<Seq<char>>,
    pub file_name: Option<Seq<char>>,
    pub file_path: Seq<char>,
}

impl View for StageListEntry {
    type V = StageListEntryView;

    open spec fn view(&self) -> StageListEntryView {
        StageListEntryView {
            stage_name: self.stage_name.deep_view(),
            file_name: self.file_name.deep_view(),
            file_path: self.file_path@,
        }
    }
}

impl DeepView for StageListEntry {
    type V = StageListEntryView;

    open spec fn deep_view(&self) -> StageListEntryView {
        self@
    }
}

/// The entry that the listing shows for a stage file.
pub open spec fn list_entry_spec(file: StageFileView) -> StageListEntryView {
    StageListEntryView {
        stage_name: file.stage.name,
        file_name: spec_path_file_name(file.path),
        file_path: file.path,
    }
}

/// A text, or the empty text where there is none.
pub open spec fn or_empty(text: Option<Seq<char>>) -> Seq<char> {
    match text {
        Some(t) => t,
        None => Seq::empty(),
    }
}

/// The row of the table for an entry: stage name, file name, path.
pub open spec fn entry_row(entry: StageListEntryView) -> Seq<Seq<char>> {
    seq![or_empty(entry.stage_name), or_empty(entry.file_name), entry.file_path]
}

/// The rows of the table for the entries, in order.
pub open spec fn listing_rows(entries: Seq<StageListEntryView>) -> Seq<Seq<Seq<char>>> {
    entries.map_values(|e: StageListEntryView| entry_row(e))
}

fn text_or_empty(text: &Option<String>) -> (r: &str)
    ensures
        r@ == or_empty(text.deep_view()),
{
    proof {
        reveal_strlit("");
    }
    match text {
        Some(t) => t.as_str(),
        None => "",
    }
}

impl StageListCommandHandler {
    /// The entries for the stage files, in their order (see
    /// [`list_entry_spec`]).
    pub fn entries(files: &[StageFile]) -> (r: Vec<StageListEntry>)
        ensures
            r.deep_view() == files.deep_view().map_values(|f: StageFileView| list_entry_spec(f)),
    {
        let mut out: Vec<StageListEntry> = Vec::new();
        let mut i: usize = 0;
        while i < files.len()
            invariant
                i <= files.len(),
                out.deep_view() == files.deep_view().take(i as int).map_values(|f: StageFileView| list_entry_spec(f)),
            decreases files.len() - i,
        {
            let file = &files[i];
            let entry = StageListEntry {
                stage_name: file.stage.name.clone(),
                file_name: path_file_name(file.path.as_str()),
                file_path: file.path.clone(),
            };
            let ghost before = out.deep_view();
            out.push(entry);
            proof {
                assert(files.deep_view()[i as int] == file.deep_view());
                assert(out.deep_view() =~= before.push(entry@));
                assert(files.deep_view().take(i + 1).map_values(|f: StageFileView| list_entry_spec(f))
                    =~= files.deep_view().take(i as int).map_values(|f: StageFileView| list_entry_spec(f)).push(list_entry_spec(file.deep_view())));
            }
            i = i + 1;
        }
        assert(files.deep_view().take(i as int) =~= files.deep_view());
        out
    }

    /// The listing as a table (see [`print_table_spec`]), or nothing where
    /// there are no entries.
    pub fn table(entries: &[StageListEntry]) -> (r: Option<String>)
        ensures
            r is None <==> entries.len() == 0,
            r matches Some(text) ==> print_table_spec(listing_rows(entries.deep_view())) == Ok::<Seq<char>, PrintTableError>(text@),
    {
        if entries.len() == 0 {
            return None;
        }
        let ghost all = listing_rows(entries.deep_view());
        let mut rows: Vec<Vec<&str>> = Vec::new();
        let mut i: usize = 0;
        while i < entries.len()
            invariant
                i <= entries.len(),
                rows@.map_values(|row: Vec<&str>| row@.map_values(|c: &str| c@)) == listing_rows(entries.deep_view().take(i as int)),
            decreases entries.len() - i,
        {
            let entry = &entries[i];
            let row = vec![text_or_empty(&entry.stage_name), text_or_empty(&entry.file_name), entry.file_path.as_str()];
            let ghost before = rows@;
            rows.push(row);
            proof {
                assert(entries.deep_view()[i as int] == entry@);
                assert(row@.map_values(|c: &str| c@) =~= entry_row(entry@));
                assert(rows@ == before.push(row));
                assert(rows@.map_values(|row: Vec<&str>| row@.map_values(|c: &str| c@))
                    =~= before.map_values(|row: Vec<&str>| row@.map_values(|c: &str| c@)).push(entry_row(entry@)));
                assert(listing_rows(entries.deep_view().take(i + 1)) =~= listing_rows(entries.deep_view().take(i as int)).push(entry_row(entry@)));
            }
            i = i + 1;
        }
        assert(entries.deep_view().take(i as int) =~= entries.deep_view());
        let mut refs: Vec<&[&str]> = Vec::new();
        let mut j: usize = 0;
        while j < rows.len()
            invariant
                j <= rows.len(),
                rows.len() == entries.len(),
                rows@.map_values(|row: Vec<&str>| row@.map_values(|c: &str| c@)) == all,
                table_texts(refs@) == all.take(j as int),
            decreases rows.len() - j,
        {
            let ghost before = refs@;
            let slice = rows[j].as_slice();
            refs.push(slice);
            proof {
                assert(refs@ == before.push(slice));
                assert(slice@ == rows@[j as int]@);
                assert(all[j as int] == rows@[j as int]@.map_values(|c: &str| c@));
                assert(table_texts(refs@) =~= table_texts(before).push(slice@.map_values(|c: &str| c@)));
                assert(all.take(j + 1) =~= all.take(j as int).push(all[j as int]));
            }
            j = j + 1;
        }
        assert(all.take(j as int) =~= all);
        match print_table(refs.as_slice()) {
            Ok(text) => Some(text),
            Err(e) => {
                proof {
                    assert(all.len() > 0);
                    assert forall|k: int| 0 <= k < all.len() implies #[trigger] all[k].len() == all[0].len() by {
                        assert(all[k] == entry_row(entries.deep_view()[k]));
                        assert(all[0] == entry_row(entries.deep_view()[0]));
                    }
                    assert(print_table_spec(all) is Ok);
                }
                None
            },
        }
    }
}

} // verus!
