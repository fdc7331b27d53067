//! Table-style text rendering of chunk results.
use crate::checks::CheckKind;
use crate::text::{chars_of, decimal, owned, push_decimal};
use vstd::prelude::*;

verus! {

/// The characters of each string.
pub open spec fn strs_view(v: Seq<String>) -> Seq<Seq<char>> {
    v.map_values(|s: String| s@)
}

/// The characters of each cell of each row.
pub open spec fn rows_view(rows: Seq<Vec<String>>) -> Seq<Seq<Seq<char>>> {
    rows.map_values(|r: Vec<String>| strs_view(r@))
}

pub open spec fn repeat_char(c: char, n: nat) -> Seq<char> {
    Seq::new(n, |i: int| c)
}

/// `s` cut to `width` characters; with `show_truncation` and room for it, the cut is marked
/// by `...` within the width.
pub open spec fn truncate_spec(s: Seq<char>, width: nat, show_truncation: bool) -> Seq<char> {
    if s.len() <= width {
        s
    } else if show_truncation && width > 3 {
        s.take(width - 3) + seq!['.', '.', '.']
    } else {
        s.take(width as int)
    }
}

/// `s` centred in `width` characters (the odd space goes to the right).
pub open spec fn center_spec(s: Seq<char>, width: nat) -> Seq<char> {
    if s.len() >= width {
        s
    } else {
        let pad = (width - s.len()) as nat;
        repeat_char(' ', pad / 2) + s + repeat_char(' ', (pad - pad / 2) as nat)
    }
}

/// `s` right-aligned in `width` characters.
pub open spec fn right_spec(s: Seq<char>, width: nat) -> Seq<char> {
    if s.len() >= width {
        s
    } else {
        repeat_char(' ', (width - s.len()) as nat) + s
    }
}

/// `s` left-aligned in `width` characters.
pub open spec fn left_spec(s: Seq<char>, width: nat) -> Seq<char> {
    if s.len() >= width {
        s
    } else {
        s + repeat_char(' ', (width - s.len()) as nat)
    }
}

/// Whether a cell starts with an ASCII digit (such cells are right-aligned).
pub open spec fn starts_with_digit(s: Seq<char>) -> bool {
    s.len() > 0 && '0' <= s[0] && s[0] <= '9'
}

/// The widest cell of column `i` over the rows (rows without that column count as 0).
pub open spec fn max_cell(rows: Seq<Seq<Seq<char>>>, i: int) -> nat
    decreases rows.len(),
{
    if rows.len() == 0 {
        0
    } else {
        let w = if 0 <= i < rows.last().len() { rows.last()[i].len() } else { 0 };
        let m = max_cell(rows.drop_last(), i);
        if w > m { w } else { m }
    }
}

/// The width of column `i`: its widest entry, header included, at most `max_width`.
pub open spec fn column_width(headers: Seq<Seq<char>>, rows: Seq<Seq<Seq<char>>>, i: int, max_width: nat) -> nat {
    let m = max_cell(rows, i);
    let w = if headers[i].len() > m { headers[i].len() } else { m };
    if w < max_width { w } else { max_width }
}

/// The widths of all columns.
pub open spec fn column_widths(headers: Seq<Seq<char>>, rows: Seq<Seq<Seq<char>>>, max_width: nat) -> Seq<nat> {
    Seq::new(headers.len(), |i: int| column_width(headers, rows, i, max_width))
}

/// The border pieces of the first `n` columns.
pub open spec fn border_cells(ws: Seq<nat>, n: nat) -> Seq<char>
    decreases n,
{
    if n == 0 {
        Seq::empty()
    } else {
        border_cells(ws, (n - 1) as nat) + repeat_char('-', ws[n - 1] + 2) + seq!['+']
    }
}

/// A border line: `+`, then `-` over each column and its two padding spaces, then `+`.
pub open spec fn border_line(ws: Seq<nat>) -> Seq<char> {
    seq!['+'] + border_cells(ws, ws.len()) + seq!['\n']
}

/// The header cells of the first `n` columns, centred.
pub open spec fn header_cells(hs: Seq<Seq<char>>, ws: Seq<nat>, show: bool, n: nat) -> Seq<char>
    decreases n,
{
    if n == 0 {
        Seq::empty()
    } else {
        let i = n - 1;
        header_cells(hs, ws, show, (n - 1) as nat) + seq![' '] + center_spec(truncate_spec(hs[i], ws[i], show), ws[i]) + seq![' ', '|']
    }
}

/// One data cell: numbers right-aligned, text left-aligned.
pub open spec fn data_cell(cell: Seq<char>, w: nat, show: bool) -> Seq<char> {
    let t = truncate_spec(cell, w, show);
    seq![' '] + (if starts_with_digit(cell) { right_spec(t, w) } else { left_spec(t, w) }) + seq![' ', '|']
}

/// The cells of the first `n` entries of a row; entries beyond the columns are dropped.
pub open spec fn row_cells(row: Seq<Seq<char>>, ws: Seq<nat>, show: bool, n: nat) -> Seq<char>
    decreases n,
{
    if n == 0 {
        Seq::empty()
    } else {
        let i = n - 1;
        row_cells(row, ws, show, (n - 1) as nat) + (if i < ws.len() { data_cell(row[i], ws[i], show) } else { Seq::empty() })
    }
}

/// The lines of the first `n` rows.
pub open spec fn row_lines(rows: Seq<Seq<Seq<char>>>, ws: Seq<nat>, show: bool, n: nat) -> Seq<char>
    decreases n,
{
    if n == 0 {
        Seq::empty()
    } else {
        let r = rows[n - 1];
        row_lines(rows, ws, show, (n - 1) as nat) + seq!['|'] + row_cells(r, ws, show, r.len()) + seq!['\n']
    }
}

/// A bordered table of the headers and rows; nothing when there are no rows.
pub open spec fn table_spec(hs: Seq<Seq<char>>, rows: Seq<Seq<Seq<char>>>, max_width: nat, show: bool) -> Seq<char> {
    if rows.len() == 0 {
        Seq::empty()
    } else {
        let ws = column_widths(hs, rows, max_width);
        border_line(ws) + seq!['|'] + header_cells(hs, ws, show, hs.len()) + seq!['\n'] + border_line(ws)
            + row_lines(rows, ws, show, rows.len()) + border_line(ws)
    }
}

fn push_repeat(s: &mut String, c: char, n: usize)
    ensures
        final(s)@ == old(s)@ + repeat_char(c, n as nat),
{
    for i in 0..n
        invariant
            s@ == old(s)@ + repeat_char(c, i as nat),
    {
        s.push(c);
        proof {
            assert(old(s)@ + repeat_char(c, (i + 1) as nat) =~= old(s)@ + repeat_char(c, i as nat) + seq![c]);
        }
    }
}

fn push_chars(s: &mut String, v: &Vec<char>, n: usize)
    requires
        n <= v@.len(),
    ensures
        final(s)@ == old(s)@ + v@.take(n as int),
{
    for i in 0..n
        invariant
            n <= v@.len(),
            s@ == old(s)@ + v@.take(i as int),
    {
        s.push(v[i]);
        proof {
            assert(v@.take(i + 1) =~= v@.take(i as int).push(v@[i as int]));
            assert(old(s)@ + v@.take(i + 1) =~= old(s)@ + v@.take(i as int) + seq![v@[i as int]]);
        }
    }
}

fn char_len(s: &str) -> (r: usize)
    ensures
        r == s@.len(),
{
    chars_of(s).len()
}

/// The widths as natural numbers.
pub open spec fn widths_view(ws: Seq<usize>) -> Seq<nat> {
    ws.map_values(|w: usize| w as nat)
}

fn push_border(s: &mut String, widths: &Vec<usize>)
    ensures
        final(s)@ == old(s)@ + border_line(widths_view(widths@)),
{
    let ghost ws = widths_view(widths@);
    s.push('+');
    let n = widths.len();
    for i in 0..n
        invariant
            n == widths@.len(),
            ws == widths_view(widths@),
            s@ == old(s)@ + seq!['+'] + border_cells(ws, i as nat),
    {
        push_repeat(s, '-', widths[i]);
        s.push('-');
        s.push('-');
        s.push('+');
        proof {
            assert(repeat_char('-', ws[i as int] + 2) =~= repeat_char('-', widths@[i as int] as nat) + seq!['-', '-']);
            assert(s@ =~= old(s)@ + seq!['+'] + border_cells(ws, (i + 1) as nat));
        }
    }
    s.push('\n');
    proof {
        assert(s@ =~= old(s)@ + border_line(ws));
    }
}

fn push_centered(s: &mut String, t: &String, w: usize)
    ensures
        final(s)@ == old(s)@ + center_spec(t@, w as nat),
{
    let len = char_len(t.as_str());
    if len >= w {
        s.push_str(t.as_str());
    } else {
        let pad = w - len;
        push_repeat(s, ' ', pad / 2);
        s.push_str(t.as_str());
        push_repeat(s, ' ', pad - pad / 2);
        proof {
            assert(s@ =~= old(s)@ + center_spec(t@, w as nat));
        }
    }
}

fn push_data_cell(s: &mut String, t: &String, cell: &str, w: usize)
    ensures
        final(s)@ == old(s)@ + (if starts_with_digit(cell@) { right_spec(t@, w as nat) } else { left_spec(t@, w as nat) }),
{
    let cs = chars_of(cell);
    let numeric = cs.len() > 0 && '0' <= cs[0] && cs[0] <= '9';
    let len = char_len(t.as_str());
    if len >= w {
        s.push_str(t.as_str());
    } else if numeric {
        push_repeat(s, ' ', w - len);
        s.push_str(t.as_str());
    } else {
        s.push_str(t.as_str());
        push_repeat(s, ' ', w - len);
    }
    proof {
        assert(s@ =~= old(s)@ + (if starts_with_digit(cell@) { right_spec(t@, w as nat) } else { left_spec(t@, w as nat) }));
    }
}

/// A table renderer with a cap on column width.
pub struct SparkStyleFormatter {
    max_col_width: usize,
    show_truncation: bool,
}

impl SparkStyleFormatter {
    pub closed spec fn spec_max_col_width(&self) -> nat {
        self.max_col_width as nat
    }

    pub closed spec fn spec_show_truncation(&self) -> bool {
        self.show_truncation
    }

    /// Columns of at most 20 characters; truncation is marked.
    pub fn new() -> (r: SparkStyleFormatter)
        ensures
            r.spec_max_col_width() == 20,
            r.spec_show_truncation(),
    {
        SparkStyleFormatter { max_col_width: 20, show_truncation: true }
    }

    /// The same renderer with columns of at most `width` characters.
    pub fn with_max_width(self, width: usize) -> (r: SparkStyleFormatter)
        ensures
            r.spec_max_col_width() == width,
            r.spec_show_truncation() == self.spec_show_truncation(),
    {
        let mut f = self;
        f.max_col_width = width;
        f
    }

    /// `s` cut to `width` characters, the cut marked by `...` when marking is on and the
    /// width is over 3.
    pub fn truncate_to_width(&self, s: &str, width: usize) -> (r: String)
        ensures
            r@ == truncate_spec(s@, width as nat, self.spec_show_truncation()),
    {
        let cs = chars_of(s);
        let mut out = String::new();
        if cs.len() <= width {
            push_chars(&mut out, &cs, cs.len());
            proof {
                assert(cs@.take(cs@.len() as int) =~= cs@);
                assert(out@ =~= s@);
            }
        } else if self.show_truncation && width > 3 {
            push_chars(&mut out, &cs, width - 3);
            out.push_str("...");
            proof {
                reveal_strlit("...");
                assert(out@ =~= truncate_spec(s@, width as nat, self.show_truncation));
            }
        } else {
            push_chars(&mut out, &cs, width);
            proof {
                assert(out@ =~= truncate_spec(s@, width as nat, self.show_truncation));
            }
        }
        out
    }

    #[verifier::rlimit(50)]
    fn push_row_line(&self, out: &mut String, row: &Vec<String>, widths: &Vec<usize>)
        ensures
            final(out)@ == old(out)@ + seq!['|'] + row_cells(strs_view(row@), widths_view(widths@), self.spec_show_truncation(), row@.len() as nat) + seq!['\n'],
    {
        let ghost r = strs_view(row@);
        let ghost ws = widths_view(widths@);
        let ghost show = self.show_truncation;
        let nh = widths.len();
        out.push('|');
        let ghost line_start = out@;
        let nc = row.len();
        for i in 0..nc
            invariant
                nc == row@.len(),
                widths@.len() == nh,
                r == strs_view(row@),
                ws == widths_view(widths@),
                show == self.show_truncation,
                out@ == line_start + row_cells(r, ws, show, i as nat),
        {
            if i < widths.len() {
                let t = self.truncate_to_width(row[i].as_str(), widths[i]);
                out.push(' ');
                push_data_cell(out, &t, row[i].as_str(), widths[i]);
                out.push(' ');
                out.push('|');
                proof {
                    assert(r[i as int] == row@[i as int]@);
                    assert(out@ =~= line_start + row_cells(r, ws, show, (i + 1) as nat));
                }
            } else {
                proof {
                    assert(row_cells(r, ws, show, (i + 1) as nat) =~= row_cells(r, ws, show, i as nat));
                }
            }
        }
        out.push('\n');
        proof {
            assert(out@ =~= old(out)@ + seq!['|'] + row_cells(r, ws, show, nc as nat) + seq!['\n']);
        }
    }

    /// A bordered table: a border, the centred headers, a border, one line per row and a
    /// closing border. Each column is as wide as its widest entry, capped at the column width;
    /// longer entries are cut. Cells starting with a digit are right-aligned, others
    /// left-aligned; entries beyond the header count are dropped. No rows give no table.
    pub fn format_table_owned(&self, headers: &[String], rows: &[Vec<String>]) -> (r: String)
        ensures
            r@ == table_spec(strs_view(headers@), rows_view(rows@), self.spec_max_col_width(), self.spec_show_truncation()),
    {
        let ghost hs = strs_view(headers@);
        let ghost rs = rows_view(rows@);
        let ghost show = self.show_truncation;
        let ghost maxw = self.max_col_width as nat;
        if rows.len() == 0 {
            return String::new();
        }
        let nh = headers.len();
        let nr = rows.len();
        let mut widths: Vec<usize> = Vec::new();
        for i in 0..nh
            invariant
                nh == headers@.len(),
                nr == rows@.len(),
                hs == strs_view(headers@),
                rs == rows_view(rows@),
                maxw == self.max_col_width,
                widths@.len() == i,
                forall|j: int| 0 <= j < i ==> #[trigger] widths@[j] == column_width(hs, rs, j, maxw),
        {
            let mut m = char_len(headers[i].as_str());
            proof {
                assert(hs[i as int] == headers@[i as int]@);
            }
            for j in 0..nr
                invariant
                    nr == rows@.len(),
                    nh == headers@.len(),
                    i < nh,
                    hs == strs_view(headers@),
                    rs == rows_view(rows@),
                    m == (if hs[i as int].len() > max_cell(rs.take(j as int), i as int) { hs[i as int].len() } else { max_cell(rs.take(j as int), i as int) }),
            {
                proof {
                    assert(rs.take(j + 1).drop_last() =~= rs.take(j as int));
                    assert(rs.take(j + 1).last() == rs[j as int]);
                    assert(rs[j as int] == strs_view(rows@[j as int]@));
                }
                if i < rows[j].len() {
                    let c = char_len(rows[j][i].as_str());
                    proof {
                        assert(rs[j as int][i as int] == rows@[j as int]@[i as int]@);
                    }
                    if c > m {
                        m = c;
                    }
                }
            }
            proof {
                assert(rs.take(nr as int) =~= rs);
            }
            let w = if m < self.max_col_width { m } else { self.max_col_width };
            widths.push(w);
        }
        let ghost ws = widths_view(widths@);
        proof {
            assert(ws =~= column_widths(hs, rs, maxw));
        }
        let mut out = String::new();
        push_border(&mut out, &widths);
        out.push('|');
        let ghost after_border = out@;
        for i in 0..nh
            invariant
                nh == headers@.len(),
                widths@.len() == nh,
                hs == strs_view(headers@),
                ws == widths_view(widths@),
                show == self.show_truncation,
                out@ == after_border + header_cells(hs, ws, show, i as nat),
        {
            let t = self.truncate_to_width(headers[i].as_str(), widths[i]);
            out.push(' ');
            push_centered(&mut out, &t, widths[i]);
            out.push(' ');
            out.push('|');
            proof {
                assert(hs[i as int] == headers@[i as int]@);
                assert(out@ =~= after_border + header_cells(hs, ws, show, (i + 1) as nat));
            }
        }
        out.push('\n');
        push_border(&mut out, &widths);
        let ghost before_rows = out@;
        for j in 0..nr
            invariant
                nr == rows@.len(),
                widths@.len() == nh,
                rs == rows_view(rows@),
                ws == widths_view(widths@),
                show == self.show_truncation,
                out@ == before_rows + row_lines(rs, ws, show, j as nat),
        {
            let row = &rows[j];
            let ghost r = rs[j as int];
            proof {
                assert(r == strs_view(rows@[j as int]@));
            }
            self.push_row_line(&mut out, row, &widths);
            proof {
                assert(out@ =~= before_rows + row_lines(rs, ws, show, (j + 1) as nat));
            }
        }
        push_border(&mut out, &widths);
        proof {
            assert(out@ =~= table_spec(hs, rs, maxw, show));
        }
        out
    }

    /// `s` cut to the renderer's column width.
    pub fn truncate_string(&self, s: &str) -> (r: String)
        ensures
            r@ == truncate_spec(s@, self.spec_max_col_width(), self.spec_show_truncation()),
    {
        self.truncate_to_width(s, self.max_col_width)
    }
}

/// A renderer of one chunk's findings as plain lines.
pub struct ConsoleFormatter;

/// The noun that a console line uses for the check `k`.
pub open spec fn finding_noun(k: CheckKind) -> Seq<char> {
    match k {
        CheckKind::NullLike => "NULL-like values"@,
        CheckKind::Empty => "empty values"@,
        CheckKind::WhitespaceOnly => "white space only values"@,
    }
}

/// The name shown for column `col`: its header, or a placeholder past the header set.
pub open spec fn column_name(hs: Seq<Seq<char>>, col: int) -> Seq<char> {
    if 0 <= col < hs.len() {
        hs[col]
    } else {
        "Unknown Column"@
    }
}

impl ConsoleFormatter {
    pub fn new() -> ConsoleFormatter {
        ConsoleFormatter
    }

    /// The line that reports `count` matches of the check `kind` in column `col`.
    pub fn finding_line(&self, kind: CheckKind, col: usize, headers: &[String], count: usize) -> (r: String)
        ensures
            r@ == "   col_"@ + decimal(col as nat) + " column_name="@ + column_name(strs_view(headers@), col as int) + ": "@
                + decimal(count as nat) + seq![' '] + finding_noun(kind),
    {
        let mut line = owned("   col_");
        push_decimal(&mut line, col as u128);
        line.push_str(" column_name=");
        if col < headers.len() {
            line.push_str(headers[col].as_str());
        } else {
            line.push_str("Unknown Column");
        }
        line.push_str(": ");
        push_decimal(&mut line, count as u128);
        line.push(' ');
        match kind {
            CheckKind::NullLike => line.push_str("NULL-like values"),
            CheckKind::Empty => line.push_str("empty values"),
            CheckKind::WhitespaceOnly => line.push_str("white space only values"),
        }
        proof {
            assert(strs_view(headers@).len() == headers@.len());
            if col < headers.len() {
                assert(strs_view(headers@)[col as int] == headers@[col as int]@);
            }
            assert(line@ =~= "   col_"@ + decimal(col as nat) + " column_name="@ + column_name(strs_view(headers@), col as int) + ": "@
                + decimal(count as nat) + seq![' '] + finding_noun(kind));
        }
        line
    }

    /// The two heading lines of a chunk's report.
    pub fn chunk_heading(&self, chunk_number: usize, rows_processed: usize) -> (r: (String, String))
        ensures
            r.0@ == "\nProcessed chunk #"@ + decimal(chunk_number as nat) + " with "@ + decimal(rows_processed as nat) + " rows"@,
            r.1@ == "--- Statistics for chunk "@ + decimal(chunk_number as nat) + ":"@,
    {
        let mut a = owned("\nProcessed chunk #");
        push_decimal(&mut a, chunk_number as u128);
        a.push_str(" with ");
        push_decimal(&mut a, rows_processed as u128);
        a.push_str(" rows");
        let mut b = owned("--- Statistics for chunk ");
        push_decimal(&mut b, chunk_number as u128);
        b.push_str(":");
        proof {
            assert(a@ =~= "\nProcessed chunk #"@ + decimal(chunk_number as nat) + " with "@ + decimal(rows_processed as nat) + " rows"@);
            assert(b@ =~= "--- Statistics for chunk "@ + decimal(chunk_number as nat) + ":"@);
        }
        (a, b)
    }
}

} // verus!
