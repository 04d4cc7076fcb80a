//! Plain-text table layout: rows of cells against a format string of
//! literals and `%l`/`%r` column directives. The table tracks the width
//! of each column (in characters) as rows arrive.

use vstd::prelude::*;
use vstd::string::*;

verus! {

/// One row: the text of each cell.
#[derive(Debug, PartialEq, Eq)]
pub struct Row(pub Vec<String>);

impl Row {
    pub fn new() -> (r: Self)
        ensures
            r.0@ == Seq::<String>::empty(),
    {
        Row(Vec::new())
    }

    pub fn add_cell(self, value: String) -> (r: Self)
        ensures
            r.0@ == self.0@.push(value),
    {
        let mut cells = self.0;
        cells.push(value);
        Row(cells)
    }
}

/// One piece of a parsed format string.
#[derive(Debug, PartialEq, Eq)]
pub enum FormatSpec {
    Left,
    Right,
    Literal(String),
}

/// Whether a format string is well formed: every percent sign is
/// followed by another, an `l`, or an `r`.
pub open spec fn format_ok(s: Seq<char>) -> bool
    decreases s.len(),
{
    if s.len() == 0 {
        true
    } else if s[0] == '%' {
        s.len() >= 2 && (s[1] == '%' || s[1] == 'l' || s[1] == 'r') && format_ok(s.skip(2))
    } else {
        format_ok(s.skip(1))
    }
}

/// How many columns a format string declares: its `%l` and `%r`
/// directives.
pub open spec fn column_count(s: Seq<char>) -> nat
    decreases s.len(),
{
    if s.len() == 0 {
        0
    } else if s[0] == '%' && s.len() >= 2 {
        if s[1] == 'l' || s[1] == 'r' {
            1 + column_count(s.skip(2))
        } else {
            column_count(s.skip(2))
        }
    } else {
        column_count(s.skip(1))
    }
}

/// How many of the parsed pieces are column directives.
pub open spec fn specs_column_count(items: Seq<FormatSpec>) -> nat
    decreases items.len(),
{
    if items.len() == 0 {
        0
    } else {
        specs_column_count(items.drop_last()) + (match items.last() {
            FormatSpec::Left => 1nat,
            FormatSpec::Right => 1nat,
            FormatSpec::Literal(_) => 0nat,
        })
    }
}

proof fn lemma_column_count_le_len(s: Seq<char>)
    ensures
        column_count(s) <= s.len(),
    decreases s.len(),
{
    if s.len() == 0 {
    } else if s[0] == '%' && s.len() >= 2 {
        lemma_column_count_le_len(s.skip(2));
    } else {
        lemma_column_count_le_len(s.skip(1));
    }
}

/// Parse a format string into its pieces and its column count. A
/// percent sign followed by anything else names no directive, so such
/// strings are left out.
pub fn parse_format_string(format_str: &str) -> (r: (Vec<FormatSpec>, usize))
    requires
        format_ok(format_str@),
    ensures
        r.1 as nat == column_count(format_str@),
        specs_column_count(r.0@) == r.1 as nat,
{
    let n = format_str.unicode_len();
    let mut vec: Vec<FormatSpec> = Vec::new();
    let mut count: usize = 0;
    let mut buf = String::new();
    let mut i: usize = 0;
    proof {
        lemma_column_count_le_len(format_str@);
        assert(format_str@.skip(0) =~= format_str@);
    }
    while i < n
        invariant
            0 <= i <= n,
            n == format_str@.len(),
            format_ok(format_str@.skip(i as int)),
            count + column_count(format_str@.skip(i as int)) == column_count(format_str@),
            column_count(format_str@) <= n,
            specs_column_count(vec@) == count,
        decreases n - i,
    {
        let ghost tail = format_str@.skip(i as int);
        let c = format_str.get_char(i);
        proof {
            assert(tail[0] == format_str@[i as int]);
        }
        if c == '%' {
            proof {
                assert(tail.len() >= 2);
                assert(tail[1] == format_str@[i + 1]);
                assert(tail.skip(2) =~= format_str@.skip(i + 2));
            }
            let d = format_str.get_char(i + 1);
            if d == '%' {
                buf.append("%");
            } else {
                if !buf.as_str().is_empty() {
                    let ghost v0 = vec@;
                    vec.push(FormatSpec::Literal(buf));
                    proof {
                        assert(vec@.drop_last() =~= v0);
                        assert(specs_column_count(vec@) == specs_column_count(v0));
                    }
                    buf = String::new();
                }
                let ghost v1 = vec@;
                if d == 'l' {
                    vec.push(FormatSpec::Left);
                } else {
                    vec.push(FormatSpec::Right);
                }
                proof {
                    assert(vec@.drop_last() =~= v1);
                    assert(specs_column_count(vec@) == specs_column_count(v1) + 1);
                }
                count = count + 1;
            }
            i = i + 2;
        } else {
            proof {
                assert(tail.skip(1) =~= format_str@.skip(i + 1));
            }
            let sub = format_str.substring_char(i, i + 1);
            buf.append(sub);
            i = i + 1;
        }
    }
    if !buf.as_str().is_empty() {
        let ghost v0 = vec@;
        vec.push(FormatSpec::Literal(buf));
        proof {
            assert(vec@.drop_last() =~= v0);
            assert(specs_column_count(vec@) == specs_column_count(v0));
        }
    }
    proof {
        assert(format_str@.skip(n as int).len() == 0);
    }
    (vec, count)
}

/// A table: the parsed format, the rows so far, and the width each
/// column has needed so far.
#[derive(Debug, PartialEq, Eq)]
pub struct TextTable {
    pub n_columns: usize,
    pub format: Vec<FormatSpec>,
    pub rows: Vec<Row>,
    pub column_widths: Vec<usize>,
}

impl TextTable {
    /// The table's internal shape: one width per column, every row
    /// filled to the column count, and no cell wider than its column.
    pub open spec fn wf(&self) -> bool {
        &&& self.column_widths@.len() == self.n_columns
        &&& forall|i: int|
            0 <= i < self.rows@.len() ==> (#[trigger] self.rows@[i]).0@.len() == self.n_columns
        &&& forall|i: int, j: int|
            0 <= i < self.rows@.len() && 0 <= j < self.n_columns
                ==> (#[trigger] self.rows@[i].0@[j])@.len() <= self.column_widths@[j]
    }

    /// An empty table over a format string.
    pub fn new(format_string: &str) -> (r: Self)
        requires
            format_ok(format_string@),
        ensures
            r.wf(),
            r.n_columns as nat == column_count(format_string@),
            specs_column_count(r.format@) == r.n_columns as nat,
            r.rows@.len() == 0,
            forall|i: int| 0 <= i < r.n_columns ==> #[trigger] r.column_widths@[i] == 0,
    {
        let (format, n_columns) = parse_format_string(format_string);
        let mut column_widths: Vec<usize> = Vec::new();
        let mut i: usize = 0;
        while i < n_columns
            invariant
                0 <= i <= n_columns,
                column_widths@.len() == i,
                forall|j: int| 0 <= j < i ==> #[trigger] column_widths@[j] == 0,
            decreases n_columns - i,
        {
            column_widths.push(0);
            i = i + 1;
        }
        TextTable { n_columns, format, rows: Vec::new(), column_widths }
    }

    /// Append a row, which must fill every column, and widen each
    /// column to the row's cell where that cell is longer. Widths count
    /// characters.
    pub fn add_row(&mut self, row: Row)
        requires
            old(self).wf(),
            row.0@.len() == old(self).n_columns,
        ensures
            final(self).wf(),
            final(self).n_columns == old(self).n_columns,
            final(self).format == old(self).format,
            final(self).rows@ == old(self).rows@.push(row),
            final(self).column_widths@.len() == old(self).column_widths@.len(),
            forall|i: int|
                0 <= i < old(self).column_widths@.len()
                    ==> #[trigger] final(self).column_widths@[i] as nat == if row.0@[i]@.len()
                    > old(self).column_widths@[i] {
                    row.0@[i]@.len()
                } else {
                    old(self).column_widths@[i] as nat
                },
    {
        let mut i: usize = 0;
        while i < self.column_widths.len()
            invariant
                0 <= i <= self.column_widths@.len(),
                self.column_widths@.len() == old(self).column_widths@.len(),
                self.column_widths@.len() == row.0@.len(),
                self.n_columns == old(self).n_columns,
                self.format == old(self).format,
                self.rows@ == old(self).rows@,
                forall|j: int|
                    i <= j < self.column_widths@.len()
                        ==> #[trigger] self.column_widths@[j] == old(self).column_widths@[j],
                forall|j: int|
                    0 <= j < i ==> #[trigger] self.column_widths@[j] as nat == if row.0@[j]@.len()
                        > old(self).column_widths@[j] {
                        row.0@[j]@.len()
                    } else {
                        old(self).column_widths@[j] as nat
                    },
            decreases self.column_widths@.len() - i,
    {
            let cell_width = row.0[i].as_str().unicode_len();
            if cell_width > self.column_widths[i] {
                self.column_widths.set(i, cell_width);
            }
            i = i + 1;
        }
        self.rows.push(row);
    }
}

/// A run of spaces.
pub open spec fn spaces(n: nat) -> Seq<char> {
    Seq::new(n, |i: int| ' ')
}

/// A cell set flush left: the text, then spaces out to the column width.
pub open spec fn pad_left_aligned(cell: Seq<char>, width: nat) -> Seq<char>
    recommends
        cell.len() <= width,
{
    cell + spaces((width - cell.len()) as nat)
}

/// A cell set flush right: spaces out to the column width, then the text.
pub open spec fn pad_right_aligned(cell: Seq<char>, width: nat) -> Seq<char>
    recommends
        cell.len() <= width,
{
    spaces((width - cell.len()) as nat) + cell
}

/// One row rendered against the format pieces: literals verbatim, and
/// each column directive consuming the next cell and column width.
pub open spec fn render_items(
    items: Seq<FormatSpec>,
    cells: Seq<String>,
    widths: Seq<usize>,
) -> Seq<char>
    decreases items.len(),
{
    if items.len() == 0 {
        Seq::<char>::empty()
    } else {
        match items[0] {
            FormatSpec::Literal(s) => s@ + render_items(items.skip(1), cells, widths),
            FormatSpec::Left => pad_left_aligned(cells[0]@, widths[0] as nat) + render_items(
                items.skip(1),
                cells.skip(1),
                widths.skip(1),
            ),
            FormatSpec::Right => pad_right_aligned(cells[0]@, widths[0] as nat) + render_items(
                items.skip(1),
                cells.skip(1),
                widths.skip(1),
            ),
        }
    }
}

/// The whole table rendered: its rows one after the other (line breaks
/// come from the format's own literals).
pub open spec fn render_rows(
    items: Seq<FormatSpec>,
    rows: Seq<Row>,
    widths: Seq<usize>,
) -> Seq<char>
    decreases rows.len(),
{
    if rows.len() == 0 {
        Seq::<char>::empty()
    } else {
        render_rows(items, rows.drop_last(), widths) + render_items(
            items,
            rows.last().0@,
            widths,
        )
    }
}

/// Append spaces up to a column width.
fn append_spaces(out: &mut String, n: usize)
    ensures
        final(out)@ == old(out)@ + spaces(n as nat),
{
    let mut i: usize = 0;
    while i < n
        invariant
            0 <= i <= n,
            out@ == old(out)@ + spaces(i as nat),
        decreases n - i,
    {
        out.append(" ");
        proof {
            reveal_strlit(" ");
            assert(out@ =~= old(out)@ + spaces((i + 1) as nat));
        }
        i = i + 1;
    }
    proof {
        assert(old(out)@ + spaces(0) =~= old(out)@);
    }
}

impl TextTable {
    /// Render the table: each row against the format, each cell padded
    /// to its column's width on the side its directive names.
    pub fn render(&self) -> (r: String)
        requires
            self.wf(),
            specs_column_count(self.format@) == self.n_columns as nat,
        ensures
            r@ == render_rows(self.format@, self.rows@, self.column_widths@),
    {
        let mut out = String::new();
        let mut row_idx: usize = 0;
        proof {
            assert(self.rows@.take(0) =~= Seq::<Row>::empty());
        }
        while row_idx < self.rows.len()
            invariant
                self.wf(),
                specs_column_count(self.format@) == self.n_columns as nat,
                0 <= row_idx <= self.rows@.len(),
                out@ == render_rows(
                    self.format@,
                    self.rows@.take(row_idx as int),
                    self.column_widths@,
                ),
            decreases self.rows@.len() - row_idx,
        {
            self.render_row(&mut out, row_idx);
            proof {
                let extended = self.rows@.take(row_idx + 1);
                assert(extended.drop_last() =~= self.rows@.take(row_idx as int));
                assert(extended.last() == self.rows@[row_idx as int]);
            }
            row_idx = row_idx + 1;
        }
        proof {
            assert(self.rows@.take(self.rows@.len() as int) =~= self.rows@);
        }
        out
    }

    /// Append one row's rendering.
    fn render_row(&self, out: &mut String, row_idx: usize)
        requires
            self.wf(),
            specs_column_count(self.format@) == self.n_columns as nat,
            row_idx < self.rows@.len(),
        ensures
            final(out)@ == old(out)@ + render_items(
                self.format@,
                self.rows@[row_idx as int].0@,
                self.column_widths@,
            ),
    {
        let row = &self.rows[row_idx];
        let mut item_idx: usize = 0;
        let mut col: usize = 0;
        proof {
            assert(self.format@.skip(0) =~= self.format@);
            assert(row.0@.skip(0) =~= row.0@);
            assert(self.column_widths@.skip(0) =~= self.column_widths@);
        }
        while item_idx < self.format.len()
            invariant
                self.wf(),
                row == &self.rows@[row_idx as int],
                row_idx < self.rows@.len(),
                0 <= item_idx <= self.format@.len(),
                0 <= col <= self.n_columns,
                specs_column_count(self.format@.skip(item_idx as int)) == self.n_columns - col,
                old(out)@ + render_items(self.format@, row.0@, self.column_widths@) == out@
                    + render_items(
                    self.format@.skip(item_idx as int),
                    row.0@.skip(col as int),
                    self.column_widths@.skip(col as int),
                ),
            decreases self.format@.len() - item_idx,
        {
            let ghost items_tail = self.format@.skip(item_idx as int);
            let ghost cells_tail = row.0@.skip(col as int);
            let ghost widths_tail = self.column_widths@.skip(col as int);
            proof {
                assert(items_tail[0] == self.format@[item_idx as int]);
                assert(items_tail.skip(1) =~= self.format@.skip(item_idx + 1));
                lemma_specs_count_head(items_tail);
            }
            match &self.format[item_idx] {
                FormatSpec::Literal(text) => {
                    out.append(text.as_str());
                },
                FormatSpec::Left => {
                    proof {
                        assert(cells_tail[0] == row.0@[col as int]);
                        assert(widths_tail[0] == self.column_widths@[col as int]);
                        assert(cells_tail.skip(1) =~= row.0@.skip(col + 1));
                        assert(widths_tail.skip(1) =~= self.column_widths@.skip(col + 1));
                    }
                    out.append(row.0[col].as_str());
                    let width = self.column_widths[col];
                    let cell_len = row.0[col].as_str().unicode_len();
                    append_spaces(out, width - cell_len);
                    col = col + 1;
                },
                FormatSpec::Right => {
                    proof {
                        assert(cells_tail[0] == row.0@[col as int]);
                        assert(widths_tail[0] == self.column_widths@[col as int]);
                        assert(cells_tail.skip(1) =~= row.0@.skip(col + 1));
                        assert(widths_tail.skip(1) =~= self.column_widths@.skip(col + 1));
                    }
                    let width = self.column_widths[col];
                    let cell_len = row.0[col].as_str().unicode_len();
                    append_spaces(out, width - cell_len);
                    out.append(row.0[col].as_str());
                    col = col + 1;
                },
            }
            item_idx = item_idx + 1;
        }
        proof {
            assert(render_items(
                self.format@.skip(self.format@.len() as int),
                row.0@.skip(col as int),
                self.column_widths@.skip(col as int),
            ) =~= Seq::<char>::empty());
            assert(out@ =~= old(out)@ + render_items(self.format@, row.0@, self.column_widths@));
        }
    }
}

/// Unfold the directive count at the front of a nonempty piece list.
proof fn lemma_specs_count_head(items: Seq<FormatSpec>)
    requires
        items.len() > 0,
    ensures
        specs_column_count(items) == specs_column_count(items.skip(1)) + (match items[0] {
            FormatSpec::Left => 1nat,
            FormatSpec::Right => 1nat,
            FormatSpec::Literal(_) => 0nat,
        }),
    decreases items.len(),
{
    if items.len() == 1 {
        assert(items.drop_last() =~= items.skip(1));
        assert(items.skip(1).len() == 0);
        assert(items.last() == items[0]);
    } else {
        lemma_specs_count_head(items.drop_last());
        assert(items.skip(1).drop_last() =~= items.drop_last().skip(1));
        assert(items.skip(1).last() == items.last());
        assert(items.drop_last()[0] == items[0]);
    }
}

} // verus!
