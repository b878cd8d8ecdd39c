//! A logger that prints rows of cells as a table whose columns widen to fit.

use vstd::prelude::*;
use vstd::utf8::encode_utf8;

use crate::helpers::ansi;
use crate::text::{chars_of, push_all, string_of};

verus! {

/// The length in bytes of the UTF-8 encoding of `s`, as `str::len` returns it.
pub open spec fn byte_len(s: Seq<char>) -> usize {
    encode_utf8(s).len() as usize
}

/// `n` copies of `c`.
pub open spec fn repeat_char(c: char, n: nat) -> Seq<char> {
    Seq::new(n, |i: int| c)
}

/// `s` padded on the right with spaces to `width` characters, as
/// `format!("{:<width$}", s)` writes it.
pub open spec fn pad(s: Seq<char>, width: usize) -> Seq<char> {
    if width > s.len() {
        s + repeat_char(' ', (width - s.len()) as nat)
    } else {
        s
    }
}

/// The width of the `i`-th cell of a row: the width of its column, or for a
/// cell beyond the known columns its own length in bytes.
pub open spec fn cell_width(i: int, cell: Seq<char>, widths: Seq<usize>) -> usize {
    if i < widths.len() {
        widths[i]
    } else {
        byte_len(cell)
    }
}

/// The cells of a row, each padded to its width and followed by ` | `.
pub open spec fn cells_text(cells: Seq<Seq<char>>, widths: Seq<usize>) -> Seq<char>
    decreases cells.len(),
{
    if cells.len() == 0 {
        Seq::empty()
    } else {
        cells_text(cells.drop_last(), widths) + pad(
            cells.last(),
            cell_width(cells.len() - 1, cells.last(), widths),
        ) + " | "@
    }
}

/// A row as a table line: `| ` and its cells.
pub open spec fn row_text(cells: Seq<Seq<char>>, widths: Seq<usize>) -> Seq<char> {
    "| "@ + cells_text(cells, widths)
}

/// The dashes under each column, each run followed by `-|-`.
pub open spec fn dash_runs(widths: Seq<usize>) -> Seq<char>
    decreases widths.len(),
{
    if widths.len() == 0 {
        Seq::empty()
    } else {
        dash_runs(widths.drop_last()) + repeat_char('-', widths.last() as nat) + "-|-"@
    }
}

/// The line that separates the header from the rows: `|-`, the dash runs and
/// `|`, without its last two characters.
pub open spec fn rule_text(widths: Seq<usize>) -> Seq<char> {
    let line = "|-"@ + dash_runs(widths) + "|"@;
    line.take(line.len() - 2)
}

/// The rows, one table line after another, with nothing between them.
pub open spec fn rows_text(rows: Seq<Seq<Seq<char>>>, widths: Seq<usize>) -> Seq<char>
    decreases rows.len(),
{
    if rows.len() == 0 {
        Seq::empty()
    } else {
        rows_text(rows.drop_last(), widths) + row_text(rows.last(), widths)
    }
}

/// The rows, each table line ended by a newline.
pub open spec fn display_rows_text(rows: Seq<Seq<Seq<char>>>, widths: Seq<usize>) -> Seq<char>
    decreases rows.len(),
{
    if rows.len() == 0 {
        Seq::empty()
    } else {
        display_rows_text(rows.drop_last(), widths) + row_text(rows.last(), widths) + "\n"@
    }
}

/// The state of a table logger.
pub struct TableLoggerView {
    pub headers: Seq<Seq<char>>,
    pub rows: Seq<Seq<Seq<char>>>,
    pub widths: Seq<usize>,
    pub logged_header: bool,
}

/// The header line and the rule under it.
pub open spec fn header_text(v: TableLoggerView) -> Seq<char> {
    row_text(v.headers, v.widths) + "\n"@ + rule_text(v.widths) + "\n"@
}

/// What `log` prints: in green, the header and its rule unless they were
/// printed before, then the rows waiting.
pub open spec fn log_text(v: TableLoggerView) -> Seq<char> {
    ansi::GREEN@ + (if v.logged_header {
        Seq::empty()
    } else {
        header_text(v)
    }) + rows_text(v.rows, v.widths) + ansi::RESET@
}

/// The column widths once a row is added: each column at least as wide as the
/// row's cell in it, in bytes; cells beyond the columns change nothing.
pub open spec fn widened(widths: Seq<usize>, row: Seq<Seq<char>>) -> Seq<usize> {
    Seq::new(
        widths.len(),
        |i: int|
            if i < row.len() && byte_len(row[i]) > widths[i] {
                byte_len(row[i])
            } else {
                widths[i]
            },
    )
}

/// Adding a row never narrows a column.
pub proof fn law_add_row_never_narrows(widths: Seq<usize>, row: Seq<Seq<char>>)
    ensures
        widened(widths, row).len() == widths.len(),
        forall|i: int| 0 <= i < widths.len() ==> widened(widths, row)[i] >= widths[i],
{
}

/// Once a row is added, each of its cells fits its column (in bytes).
pub proof fn law_add_row_fits_cells(widths: Seq<usize>, row: Seq<Seq<char>>)
    ensures
        forall|i: int|
            0 <= i < widths.len() && i < row.len() ==> widened(widths, row)[i] >= byte_len(row[i]),
{
}

/// The header is printed once: logging again, with no row added since, prints
/// only the colour codes.
pub proof fn law_header_printed_once(v: TableLoggerView)
    ensures
        log_text(TableLoggerView { rows: Seq::empty(), logged_header: true, ..v }) == ansi::GREEN@
            + ansi::RESET@,
{
    let w = TableLoggerView { rows: Seq::empty(), logged_header: true, ..v };
    assert(log_text(w) =~= ansi::GREEN@ + ansi::RESET@);
}

/// Prints rows of text as a table, widening its columns to fit the cells.
pub struct TableLogger {
    headers: Vec<String>,
    rows: Vec<Vec<String>>,
    column_widths: Vec<usize>,
    has_logged_header: bool,
}

impl View for TableLogger {
    type V = TableLoggerView;

    closed spec fn view(&self) -> TableLoggerView {
        TableLoggerView {
            headers: self.headers.deep_view(),
            rows: self.rows.deep_view(),
            widths: self.column_widths@,
            logged_header: self.has_logged_header,
        }
    }
}

fn copy_strings(v: &Vec<String>) -> (r: Vec<String>)
    ensures
        r.deep_view() == v.deep_view(),
{
    let mut r: Vec<String> = Vec::new();
    let mut i: usize = 0;
    while i < v.len()
        invariant
            0 <= i <= v.len(),
            r.deep_view() == v.deep_view().take(i as int),
        decreases v.len() - i,
    {
        let ghost prev = r.deep_view();
        let s = string_of(&chars_of(v[i].as_str()));
        r.push(s);
        proof {
            assert(r.deep_view() =~= prev.push(v@[i as int]@));
            assert(v.deep_view().take(i + 1) =~= v.deep_view().take(i as int).push(v@[i as int]@));
        }
        i = i + 1;
    }
    proof {
        assert(v.deep_view().take(v.len() as int) =~= v.deep_view());
    }
    r
}

impl Clone for TableLogger {
    /// A logger with the same headers, rows, widths and header state.
    fn clone(&self) -> (c: Self)
        ensures
            c@ == self@,
    {
        proof {
            use_type_invariant(self);
        }
        let mut rows: Vec<Vec<String>> = Vec::new();
        let mut i: usize = 0;
        while i < self.rows.len()
            invariant
                0 <= i <= self.rows.len(),
                rows.deep_view() == self.rows.deep_view().take(i as int),
            decreases self.rows.len() - i,
        {
            let ghost prev = rows.deep_view();
            let row = copy_strings(&self.rows[i]);
            rows.push(row);
            proof {
                assert(rows.deep_view() =~= prev.push(self.rows@[i as int].deep_view()));
                assert(self.rows.deep_view().take(i + 1) =~= self.rows.deep_view().take(
                    i as int,
                ).push(self.rows@[i as int].deep_view()));
            }
            i = i + 1;
        }
        proof {
            assert(self.rows.deep_view().take(self.rows.len() as int) =~= self.rows.deep_view());
        }
        let headers = copy_strings(&self.headers);
        let column_widths = vstd::slice::slice_to_vec(self.column_widths.as_slice());
        proof {
            assert(headers@.len() == headers.deep_view().len());
            assert(self.headers@.len() == self.headers.deep_view().len());
        }
        TableLogger { headers, rows, column_widths, has_logged_header: self.has_logged_header }
    }
}

fn push_repeat(out: &mut Vec<char>, c: char, n: usize)
    ensures
        final(out)@ == old(out)@ + repeat_char(c, n as nat),
{
    let mut k: usize = 0;
    while k < n
        invariant
            0 <= k <= n,
            out@ == old(out)@ + repeat_char(c, k as nat),
        decreases n - k,
    {
        out.push(c);
        proof {
            assert(repeat_char(c, (k + 1) as nat) =~= repeat_char(c, k as nat).push(c));
        }
        k = k + 1;
    }
}

fn push_padded(out: &mut Vec<char>, cell: &String, width: usize)
    ensures
        final(out)@ == old(out)@ + pad(cell@, width),
{
    let chars = chars_of(cell.as_str());
    push_all(out, &chars);
    if width > chars.len() {
        push_repeat(out, ' ', width - chars.len());
    }
    proof {
        assert(final(out)@ =~= old(out)@ + pad(cell@, width));
    }
}

fn push_cells(out: &mut Vec<char>, cells: &Vec<String>, widths: &Vec<usize>)
    ensures
        final(out)@ == old(out)@ + cells_text(cells.deep_view(), widths@),
{
    let ghost cv = cells.deep_view();
    let mut i: usize = 0;
    while i < cells.len()
        invariant
            0 <= i <= cells.len(),
            cv == cells.deep_view(),
            out@ == old(out)@ + cells_text(cv.take(i as int), widths@),
        decreases cells.len() - i,
    {
        let width = if i < widths.len() {
            widths[i]
        } else {
            cells[i].as_str().len()
        };
        proof {
            assert(cv[i as int] == cells@[i as int]@);
            assert(cv.take(i + 1).drop_last() == cv.take(i as int));
            assert(cv.take(i + 1).last() == cv[i as int]);
        }
        push_padded(out, &cells[i], width);
        push_all(out, &chars_of(" | "));
        proof {
            assert(out@ =~= old(out)@ + cells_text(cv.take(i + 1), widths@));
        }
        i = i + 1;
    }
    proof {
        assert(cv.take(cells.len() as int) == cv);
    }
}

fn push_row(out: &mut Vec<char>, cells: &Vec<String>, widths: &Vec<usize>)
    ensures
        final(out)@ == old(out)@ + row_text(cells.deep_view(), widths@),
{
    push_all(out, &chars_of("| "));
    push_cells(out, cells, widths);
    proof {
        assert(final(out)@ =~= old(out)@ + row_text(cells.deep_view(), widths@));
    }
}

fn push_dash_runs(out: &mut Vec<char>, widths: &Vec<usize>)
    ensures
        final(out)@ == old(out)@ + dash_runs(widths@),
{
    let mut i: usize = 0;
    while i < widths.len()
        invariant
            0 <= i <= widths.len(),
            out@ == old(out)@ + dash_runs(widths@.take(i as int)),
        decreases widths.len() - i,
    {
        proof {
            assert(widths@.take(i + 1).drop_last() == widths@.take(i as int));
            assert(widths@.take(i + 1).last() == widths@[i as int]);
        }
        push_repeat(out, '-', widths[i]);
        push_all(out, &chars_of("-|-"));
        proof {
            assert(out@ =~= old(out)@ + dash_runs(widths@.take(i + 1)));
        }
        i = i + 1;
    }
    proof {
        assert(widths@.take(widths.len() as int) == widths@);
    }
}

impl TableLogger {
    /// A logger keeps one width per column.
    #[verifier::type_invariant]
    spec fn one_width_per_column(&self) -> bool {
        self.column_widths@.len() == self.headers@.len()
    }

    /// Whether the logger keeps one width per column.
    pub open spec fn wf(&self) -> bool {
        self.view().widths.len() == self.view().headers.len()
    }

    /// A logger with the given column headers and no rows; each column is as
    /// wide as its header, in bytes.
    pub fn new(headers: Vec<String>) -> (logger: Self)
        ensures
            logger.wf(),
            logger@.headers == headers.deep_view(),
            logger@.rows == Seq::<Seq<Seq<char>>>::empty(),
            logger@.widths == Seq::new(
                headers@.len(),
                |i: int| byte_len(headers.deep_view()[i]),
            ),
            !logger@.logged_header,
    {
        let mut column_widths: Vec<usize> = Vec::new();
        let ghost hv = headers.deep_view();
        let mut i: usize = 0;
        while i < headers.len()
            invariant
                0 <= i <= headers.len(),
                hv == headers.deep_view(),
                column_widths@ == Seq::new(i as nat, |j: int| byte_len(hv[j])),
            decreases headers.len() - i,
        {
            proof {
                assert(hv[i as int] == headers@[i as int]@);
            }
            column_widths.push(headers[i].as_str().len());
            proof {
                assert(column_widths@ =~= Seq::new((i + 1) as nat, |j: int| byte_len(hv[j])));
            }
            i = i + 1;
        }
        TableLogger { headers, rows: Vec::new(), column_widths, has_logged_header: false }
    }

    /// Adds a row to print; each column widens to the byte length of the row's
    /// cell in it when that is larger.
    pub fn add_row(&mut self, row: Vec<String>)
        ensures
            final(self).wf(),
            final(self)@.headers == old(self)@.headers,
            final(self)@.rows == old(self)@.rows.push(row.deep_view()),
            final(self)@.widths == widened(old(self)@.widths, row.deep_view()),
            final(self)@.logged_header == old(self)@.logged_header,
    {
        proof {
            use_type_invariant(&*self);
        }
        let ghost rv = row.deep_view();
        let ghost w0 = self.column_widths@;
        let mut widths: Vec<usize> = Vec::new();
        let mut i: usize = 0;
        while i < self.column_widths.len()
            invariant
                0 <= i <= w0.len(),
                rv == row.deep_view(),
                w0 == self.column_widths@,
                widths@ == widened(w0, rv).take(i as int),
            decreases w0.len() - i,
        {
            let mut width = self.column_widths[i];
            if i < row.len() {
                proof {
                    assert(rv[i as int] == row@[i as int]@);
                }
                let len = row[i].as_str().len();
                if len > width {
                    width = len;
                }
            }
            widths.push(width);
            proof {
                assert(widths@ =~= widened(w0, rv).take(i + 1));
            }
            i = i + 1;
        }
        proof {
            assert(widths@ =~= widened(w0, rv));
        }
        std::mem::swap(&mut self.column_widths, &mut widths);
        let ghost rows0 = self.rows.deep_view();
        let mut rows: Vec<Vec<String>> = Vec::new();
        std::mem::swap(&mut self.rows, &mut rows);
        rows.push(row);
        std::mem::swap(&mut self.rows, &mut rows);
        proof {
            assert(self.rows.deep_view() =~= rows0.push(rv));
        }
    }

    /// Empties the rows waiting and returns what the table prints for them: in
    /// green, the header with its rule the first time, then the rows.
    pub fn log(&mut self) -> (output: String)
        ensures
            output@ == log_text(old(self)@),
            final(self).wf(),
            final(self)@.headers == old(self)@.headers,
            final(self)@.widths == old(self)@.widths,
            final(self)@.rows == Seq::<Seq<Seq<char>>>::empty(),
            final(self)@.logged_header,
    {
        proof {
            use_type_invariant(&*self);
        }
        let ghost v0 = self@;
        let mut output = chars_of(ansi::GREEN);
        if !self.has_logged_header {
            push_row(&mut output, &self.headers, &self.column_widths);
            output.push('\n');
            output.push('|');
            output.push('-');
            push_dash_runs(&mut output, &self.column_widths);
            output.push('|');
            output.pop();
            output.pop();
            output.push('\n');
            self.has_logged_header = true;
            proof {
                reveal_strlit("\n");
                reveal_strlit("|-");
                reveal_strlit("|");
                let line = "|-"@ + dash_runs(v0.widths) + "|"@;
                assert(line.take(line.len() - 2) =~= line.drop_last().drop_last());
                assert(output@ =~= ansi::GREEN@ + header_text(v0));
            }
        }
        let ghost before_rows = output@;
        let ghost rv = self.rows.deep_view();
        let mut i: usize = 0;
        while i < self.rows.len()
            invariant
                0 <= i <= self.rows.len(),
                rv == self.rows.deep_view(),
                self.column_widths@ == v0.widths,
                output@ == before_rows + rows_text(rv.take(i as int), v0.widths),
            decreases self.rows.len() - i,
        {
            proof {
                assert(rv[i as int] == self.rows@[i as int].deep_view());
                assert(rv.take(i + 1).drop_last() == rv.take(i as int));
                assert(rv.take(i + 1).last() == rv[i as int]);
            }
            push_row(&mut output, &self.rows[i], &self.column_widths);
            proof {
                assert(output@ =~= before_rows + rows_text(rv.take(i + 1), v0.widths));
            }
            i = i + 1;
        }
        proof {
            assert(rv.take(self.rows.len() as int) == rv);
        }
        push_all(&mut output, &chars_of(ansi::RESET));
        let mut emptied: Vec<Vec<String>> = Vec::new();
        std::mem::swap(&mut self.rows, &mut emptied);
        proof {
            assert(self.rows.deep_view() =~= Seq::<Seq<Seq<char>>>::empty());
            assert(output@ =~= log_text(v0));
        }
        string_of(&output)
    }

    /// The rows waiting, as the table's `Display` writes them: each table line
    /// ended by a newline, without colour or header.
    pub fn to_display_string(&self) -> (s: String)
        ensures
            s@ == display_rows_text(self@.rows, self@.widths),
    {
        let ghost rv = self.rows.deep_view();
        let mut output: Vec<char> = Vec::new();
        let mut i: usize = 0;
        while i < self.rows.len()
            invariant
                0 <= i <= self.rows.len(),
                rv == self.rows.deep_view(),
                output@ == display_rows_text(rv.take(i as int), self@.widths),
            decreases self.rows.len() - i,
        {
            proof {
                assert(rv[i as int] == self.rows@[i as int].deep_view());
                assert(rv.take(i + 1).drop_last() == rv.take(i as int));
                assert(rv.take(i + 1).last() == rv[i as int]);
            }
            push_row(&mut output, &self.rows[i], &self.column_widths);
            push_all(&mut output, &chars_of("\n"));
            proof {
                assert(output@ =~= display_rows_text(rv.take(i + 1), self@.widths));
            }
            i = i + 1;
        }
        proof {
            assert(rv.take(self.rows.len() as int) == rv);
        }
        string_of(&output)
    }
}

} // verus!
