//! Rendering rows of texts as a table with aligned columns.

use vstd::prelude::*;
use vstd::string::{StrSliceExecFns, StringExecFns};
use vstd::utf8::encode_utf8;

verus! {

/// Why a table cannot be rendered.
#[derive(Debug, Clone, Copy, PartialEq, Eq, Structural)]
pub enum PrintTableError {
    VaryingNumberOfColumns,
    EmptyTable,
}

impl PrintTableError {
    /// What went wrong, in words.
    pub fn message(&self) -> (r: &'static str)
        ensures
            r@ == match self {
                PrintTableError::VaryingNumberOfColumns => "All rows need to have the exact same number of columns."@,
                PrintTableError::EmptyTable => "The given table is empty."@,
            },
    {
        match self {
            PrintTableError::VaryingNumberOfColumns => "All rows need to have the exact same number of columns.",
            PrintTableError::EmptyTable => "The given table is empty.",
        }
    }
}

/// The number of bytes of a text in UTF-8.
pub open spec fn byte_len(text: Seq<char>) -> nat {
    encode_utf8(text).len()
}

/// The cells of the rows as texts.
pub open spec fn table_texts(rows: Seq<&[&str]>) -> Seq<Seq<Seq<char>>> {
    rows.map_values(|row: &[&str]| row@.map_values(|cell: &str| cell@))
}

/// The width of column `col`: the largest number of UTF-8 bytes of a cell
/// in it.
pub open spec fn column_width(rows: Seq<Seq<Seq<char>>>, col: int) -> nat
    decreases rows.len(),
{
    if rows.len() == 0 {
        0
    } else {
        let rest = column_width(rows.drop_last(), col);
        let here = byte_len(rows.last()[col]);
        if here > rest { here } else { rest }
    }
}

/// `n` spaces.
pub open spec fn spaces(n: int) -> Seq<char> {
    Seq::new(if n > 0 { n as nat } else { 0 }, |i: int| ' ')
}

/// A cell padded with spaces on the right to `width` characters.
pub open spec fn padded(cell: Seq<char>, width: nat) -> Seq<char> {
    cell + spaces(width - cell.len())
}

/// The cells of a row, each as ` cell |` padded to its column's width.
pub open spec fn render_cells(row: Seq<Seq<char>>, rows: Seq<Seq<Seq<char>>>) -> Seq<char>
    decreases row.len(),
{
    if row.len() == 0 {
        Seq::empty()
    } else {
        let i = row.len() - 1;
        render_cells(row.drop_last(), rows) + " "@ + padded(row[i], column_width(rows, i)) + " |"@
    }
}

/// A row of the table: `|`, the cells, and a line break.
pub open spec fn render_row(row: Seq<Seq<char>>, rows: Seq<Seq<Seq<char>>>) -> Seq<char> {
    "|"@ + render_cells(row, rows) + "\n"@
}

/// The first `n` rows of the table, each aligned against all `rows`.
pub open spec fn render_rows(rows: Seq<Seq<Seq<char>>>, n: int) -> Seq<char>
    decreases n,
{
    if n <= 0 {
        Seq::empty()
    } else {
        render_rows(rows, n - 1) + render_row(rows[n - 1], rows)
    }
}

/// The table for `rows`, or why there is none: no rows at all, or rows of
/// different lengths.
pub open spec fn print_table_spec(rows: Seq<Seq<Seq<char>>>) -> Result<Seq<char>, PrintTableError> {
    if rows.len() == 0 {
        Err(PrintTableError::EmptyTable)
    } else if exists|k: int| 0 <= k < rows.len() && #[trigger] rows[k].len() != rows[0].len() {
        Err(PrintTableError::VaryingNumberOfColumns)
    } else {
        Ok(render_rows(rows, rows.len() as int))
    }
}

/// Renders `rows` as a table whose columns are as wide as their widest
/// cell (see [`print_table_spec`]).
pub fn print_table(rows: &[&[&str]]) -> (r: Result<String, PrintTableError>)
    ensures
        match r {
            Ok(text) => print_table_spec(table_texts(rows@)) == Ok::<Seq<char>, PrintTableError>(text@),
            Err(e) => print_table_spec(table_texts(rows@)) == Err::<Seq<char>, PrintTableError>(e),
        },
{
    let ghost table = table_texts(rows@);
    if rows.len() == 0 {
        return Err(PrintTableError::EmptyTable);
    }
    let num_columns = rows[0].len();
    let mut k: usize = 0;
    while k < rows.len()
        invariant
            k <= rows.len(),
            table == table_texts(rows@),
            num_columns == table[0].len(),
            forall|j: int| 0 <= j < k ==> #[trigger] table[j].len() == num_columns,
        decreases rows.len() - k,
    {
        assert(table[k as int].len() == rows@[k as int]@.len());
        if rows[k].len() != num_columns {
            return Err(PrintTableError::VaryingNumberOfColumns);
        }
        k = k + 1;
    }
    assert(forall|j: int| 0 <= j < rows.len() ==> #[trigger] table[j].len() == table[0].len());

    let mut column_widths: Vec<usize> = Vec::new();
    let mut c: usize = 0;
    while c < num_columns
        invariant
            c <= num_columns,
            column_widths@.len() == c,
            forall|i: int| 0 <= i < c ==> column_widths@[i] == 0,
        decreases num_columns - c,
    {
        column_widths.push(0);
        c = c + 1;
    }
    assert forall|i: int| 0 <= i < num_columns implies column_widths@[i] == column_width(table.take(0), i) by {}

    let mut r: usize = 0;
    while r < rows.len()
        invariant
            r <= rows.len(),
            table == table_texts(rows@),
            num_columns == table[0].len(),
            forall|j: int| 0 <= j < rows.len() ==> #[trigger] table[j].len() == num_columns,
            column_widths@.len() == num_columns,
            forall|i: int| 0 <= i < num_columns ==> #[trigger] column_widths@[i] == column_width(table.take(r as int), i),
        decreases rows.len() - r,
    {
        let row = rows[r];
        assert(table.take(r + 1).drop_last() =~= table.take(r as int));
        assert(table.take(r + 1).last() == table[r as int]);
        let mut i: usize = 0;
        while i < row.len()
            invariant
                r < rows.len(),
                row == rows@[r as int],
                table == table_texts(rows@),
                row@.len() == num_columns,
                i <= num_columns,
                column_widths@.len() == num_columns,
                table.take(r + 1).drop_last() == table.take(r as int),
                table.take(r + 1).last() == table[r as int],
                forall|m: int| 0 <= m < i ==> #[trigger] column_widths@[m] == column_width(table.take(r + 1), m),
                forall|m: int| i <= m < num_columns ==> #[trigger] column_widths@[m] == column_width(table.take(r as int), m),
            decreases num_columns - i,
        {
            let cell = row[i];
            assert(table[r as int][i as int] == cell@);
            let len = cell.as_bytes().len();
            assert(len == byte_len(cell@));
            assert(column_width(table.take(r + 1), i as int) == if byte_len(cell@) > column_width(table.take(r as int), i as int) {
                byte_len(cell@)
            } else {
                column_width(table.take(r as int), i as int)
            });
            if len > column_widths[i] {
                column_widths.set(i, len);
            }
            i = i + 1;
        }
        r = r + 1;
    }
    assert(table.take(rows.len() as int) =~= table);

    let mut output = String::new();
    let mut r2: usize = 0;
    while r2 < rows.len()
        invariant
            r2 <= rows.len(),
            table == table_texts(rows@),
            num_columns == table[0].len(),
            forall|j: int| 0 <= j < rows.len() ==> #[trigger] table[j].len() == num_columns,
            column_widths@.len() == num_columns,
            forall|i: int| 0 <= i < num_columns ==> #[trigger] column_widths@[i] == column_width(table, i),
            output@ == render_rows(table, r2 as int),
        decreases rows.len() - r2,
    {
        let row = rows[r2];
        assert(table[r2 as int].len() == row@.len());
        let ghost before = output@;
        proof {
            reveal_strlit("|");
            reveal_strlit(" ");
            reveal_strlit(" |");
            reveal_strlit("\n");
        }
        output.append("|");
        let mut i: usize = 0;
        assert(table[r2 as int].take(0) =~= Seq::<Seq<char>>::empty());
        while i < row.len()
            invariant
                r2 < rows.len(),
                row == rows@[r2 as int],
                table == table_texts(rows@),
                row@.len() == num_columns,
                table[r2 as int].len() == num_columns,
                i <= num_columns,
                column_widths@.len() == num_columns,
                forall|m: int| 0 <= m < num_columns ==> #[trigger] column_widths@[m] == column_width(table, m),
                output@ == before + "|"@ + render_cells(table[r2 as int].take(i as int), table),
            decreases num_columns - i,
        {
            let cell = row[i];
            assert(table[r2 as int][i as int] == cell@);
            let ghost start = output@;
            output.append(" ");
            output.append(cell);
            let chars = cell.unicode_len();
            let width = column_widths[i];
            let mut pad: usize = 0;
            let ghost cell_start = output@;
            while chars + pad < width
                invariant
                    chars == cell@.len(),
                    output@ == cell_start + spaces(pad as int),
                    chars + pad <= width || pad == 0,
                decreases width - pad,
            {
                proof {
                    reveal_strlit(" ");
                }
                output.append(" ");
                assert(spaces(pad as int).push(' ') =~= spaces(pad + 1));
                pad = pad + 1;
            }
            assert(spaces(pad as int) =~= spaces(width - chars));
            output.append(" |");
            proof {
                let cells = table[r2 as int].take(i + 1);
                assert(cells.drop_last() =~= table[r2 as int].take(i as int));
                assert(cells[i as int] == cell@);
                assert(output@ =~= before + "|"@ + render_cells(cells, table));
            }
            i = i + 1;
        }
        output.append("\n");
        assert(table[r2 as int].take(num_columns as int) =~= table[r2 as int]);
        assert(output@ =~= render_rows(table, r2 + 1));
        r2 = r2 + 1;
    }
    Ok(output)
}

} // verus!
