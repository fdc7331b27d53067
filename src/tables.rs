//! The summary and per-check tables of a run's chunk results.
use crate::aggregator::{aggregate_results, result_bounded, sum_counts, sum_rows};
use crate::totals::{check_total, check_total_of};
use crate::checks::CheckKind;
use crate::formatter::{rows_view, strs_view, table_spec, truncate_spec, SparkStyleFormatter};
use crate::processor::{count_of, ChunkProcessingResult};
use crate::report::{percent_scaled, percentage_scaled};
use crate::text::{decimal, fixed_point, owned, push_decimal, push_fixed_point};
use std::collections::HashMap;
use vstd::prelude::*;

verus! {

/// A percentage with `d` decimals and a `%` sign.
pub open spec fn pct_text(n: nat, total: nat, d: nat) -> Seq<char> {
    fixed_point(percent_scaled(n, total, d), d) + seq!['%']
}

/// The rows of the summary table.
pub open spec fn summary_rows(rows: nat, chunks: nat, cells: nat, nulls: nat, empties: nat, blanks: nat) -> Seq<Seq<Seq<char>>> {
    seq![
        seq!["Total Rows"@, decimal(rows), "-"@],
        seq!["Total Chunks"@, decimal(chunks), "-"@],
        seq!["Total Cells"@, decimal(cells), pct_text(cells, cells, 3)],
        seq!["NULL-like Values"@, decimal(nulls), pct_text(nulls, cells, 3)],
        seq!["Empty Values"@, decimal(empties), pct_text(empties, cells, 3)],
        seq!["Whitespace Values"@, decimal(blanks), pct_text(blanks, cells, 3)],
    ]
}

pub open spec fn summary_headers() -> Seq<Seq<char>> {
    seq!["Metric"@, "Count"@, "% of All Cells"@]
}

/// The processing summary: totals over all chunks and all columns, with their
/// share of all cells (rows times header columns); every share is 0% when there are no cells.
pub open spec fn summary_text(rs: Seq<ChunkProcessingResult>, hs: Seq<Seq<char>>, maxw: nat, show: bool) -> Seq<char> {
    let rows = sum_rows(rs);
    let cells = rows * hs.len();
    "=== PROCESSING SUMMARY ===\n"@
        + table_spec(summary_headers(), summary_rows(rows, rs.len(), cells,
            check_total(rs, CheckKind::NullLike),
            check_total(rs, CheckKind::Empty),
            check_total(rs, CheckKind::WhitespaceOnly)), maxw, show)
        + "Dataset: "@ + decimal(rows) + " rows × "@ + decimal(hs.len()) + " columns = "@ + decimal(cells) + " total cells\n"@
}

pub open spec fn comprehensive_headers() -> Seq<Seq<char>> {
    seq!["Column"@, "Column Name"@, "NULL Count"@, "NULL % of Column"@, "Empty Count"@, "Empty % of Column"@, "Whitespace Count"@, "Whitespace % of Column"@]
}

/// One row of the by-column summary.
pub open spec fn comprehensive_row(rs: Seq<ChunkProcessingResult>, hs: Seq<Seq<char>>, c: int, maxw: nat, show: bool) -> Seq<Seq<char>> {
    let rows = sum_rows(rs);
    let n = sum_counts(rs, CheckKind::NullLike, c as usize);
    let e = sum_counts(rs, CheckKind::Empty, c as usize);
    let w = sum_counts(rs, CheckKind::WhitespaceOnly, c as usize);
    seq![decimal(c as nat), truncate_spec(hs[c], maxw, show), decimal(n), pct_text(n, rows, 1), decimal(e), pct_text(e, rows, 1), decimal(w), pct_text(w, rows, 1)]
}

/// The by-column summary: each check's count per header column and its share of the rows.
pub open spec fn comprehensive_text(rs: Seq<ChunkProcessingResult>, hs: Seq<Seq<char>>, maxw: nat, show: bool) -> Seq<char> {
    "=== DATA QUALITY SUMMARY BY COLUMN ===\n"@
        + table_spec(comprehensive_headers(), Seq::new(hs.len(), |c: int| comprehensive_row(rs, hs, c, maxw, show)), maxw, show)
}

pub open spec fn issues_headers(label: Seq<char>) -> Seq<Seq<char>> {
    seq!["Column"@, "Column Name"@, label + " Count"@, "% of All "@ + label, "% of Column Rows"@]
}

/// One row of a check's table.
pub open spec fn issues_row(rs: Seq<ChunkProcessingResult>, hs: Seq<Seq<char>>, k: CheckKind, c: int, maxw: nat, show: bool) -> Seq<Seq<char>> {
    let count = sum_counts(rs, k, c as usize);
    let total = check_total(rs, k);
    seq![decimal(c as nat), truncate_spec(hs[c], maxw, show), decimal(count),
        if count > 0 { pct_text(count, total, 1) } else { "-"@ },
        pct_text(count, sum_rows(rs), 3)]
}

/// One check's table: per header column its count, its share of that check's matches and
/// its share of the rows; then the check's total and its share of all cells.
pub open spec fn issues_text(rs: Seq<ChunkProcessingResult>, hs: Seq<Seq<char>>, k: CheckKind, label: Seq<char>, upper: Seq<char>, lower: Seq<char>, maxw: nat, show: bool) -> Seq<char> {
    let total = check_total(rs, k);
    "=== "@ + upper + " VALUES ===\n"@
        + table_spec(issues_headers(label), Seq::new(hs.len(), |c: int| issues_row(rs, hs, k, c, maxw, show)), maxw, show)
        + "Total "@ + lower + " values: "@ + decimal(total) + " ("@ + pct_text(total, sum_rows(rs) * hs.len(), 3) + " of all cells in dataset)\n"@
}

/// The whole rendering of a run's chunk results.
pub open spec fn chunk_results_text(rs: Seq<ChunkProcessingResult>, hs: Seq<Seq<char>>, maxw: nat, show: bool) -> Seq<char> {
    summary_text(rs, hs, maxw, show) + seq!['\n']
        + comprehensive_text(rs, hs, maxw, show) + seq!['\n']
        + issues_text(rs, hs, CheckKind::NullLike, "NULL-like"@, "NULL-LIKE"@, "null-like"@, maxw, show) + seq!['\n']
        + issues_text(rs, hs, CheckKind::Empty, "Empty"@, "EMPTY"@, "empty"@, maxw, show) + seq!['\n']
        + issues_text(rs, hs, CheckKind::WhitespaceOnly, "Whitespace"@, "WHITESPACE"@, "whitespace"@, maxw, show)
}

/// The inputs that a rendering needs: well-formed results whose cells can be counted.
pub open spec fn renderable(rs: Seq<ChunkProcessingResult>, header_count: nat) -> bool {
    &&& forall|i: int| 0 <= i < rs.len() ==> result_bounded(#[trigger] rs[i])
    &&& sum_rows(rs) <= usize::MAX
    &&& sum_rows(rs) * header_count <= usize::MAX
    &&& check_total(rs, CheckKind::NullLike) <= usize::MAX
    &&& check_total(rs, CheckKind::Empty) <= usize::MAX
    &&& check_total(rs, CheckKind::WhitespaceOnly) <= usize::MAX
}

fn dec_string(v: usize) -> (r: String)
    ensures
        r@ == decimal(v as nat),
{
    let mut s = String::new();
    push_decimal(&mut s, v as u128);
    proof {
        assert(s@ =~= decimal(v as nat));
    }
    s
}

fn pct_string(n: usize, total: usize, d: u32) -> (r: String)
    requires
        1 <= d <= 6,
    ensures
        r@ == pct_text(n as nat, total as nat, d as nat),
{
    let mut s = String::new();
    push_fixed_point(&mut s, percentage_scaled(n, total, d), d);
    s.push('%');
    proof {
        assert(s@ =~= pct_text(n as nat, total as nat, d as nat));
    }
    s
}

fn count_at(m: &HashMap<usize, usize>, c: usize) -> (r: usize)
    ensures
        r == count_of(m@, c),
{
    match m.get(&c) {
        Some(v) => *v,
        None => 0,
    }
}

impl SparkStyleFormatter {
    fn format_summary_table(&self, results: &[ChunkProcessingResult], headers: &[String], totals: &(HashMap<usize, usize>, HashMap<usize, usize>, HashMap<usize, usize>, usize)) -> (r: String)
        requires
            renderable(results@, headers@.len() as nat),
            totals.3 == sum_rows(results@),
            forall|c: usize| #[trigger] count_of(totals.0@, c) == sum_counts(results@, CheckKind::NullLike, c),
            forall|c: usize| #[trigger] count_of(totals.1@, c) == sum_counts(results@, CheckKind::Empty, c),
            forall|c: usize| #[trigger] count_of(totals.2@, c) == sum_counts(results@, CheckKind::WhitespaceOnly, c),
        ensures
            r@ == summary_text(results@, strs_view(headers@), self.spec_max_col_width(), self.spec_show_truncation()),
    {
        let ghost rs = results@;
        let nh = headers.len();
        let total_rows = totals.3;
        let total_cells = total_rows * nh;
        let nulls = check_total_of(results, CheckKind::NullLike);
        let empties = check_total_of(results, CheckKind::Empty);
        let blanks = check_total_of(results, CheckKind::WhitespaceOnly);
        let table_headers = vec![owned("Metric"), owned("Count"), owned("% of All Cells")];
        let rows = vec![
            vec![owned("Total Rows"), dec_string(total_rows), owned("-")],
            vec![owned("Total Chunks"), dec_string(results.len()), owned("-")],
            vec![owned("Total Cells"), dec_string(total_cells), pct_string(total_cells, total_cells, 3)],
            vec![owned("NULL-like Values"), dec_string(nulls), pct_string(nulls, total_cells, 3)],
            vec![owned("Empty Values"), dec_string(empties), pct_string(empties, total_cells, 3)],
            vec![owned("Whitespace Values"), dec_string(blanks), pct_string(blanks, total_cells, 3)],
        ];
        proof {
            assert(strs_view(table_headers@) =~= summary_headers());
            assert(rows_view(rows@) =~= summary_rows(total_rows as nat, rs.len(), total_cells as nat, nulls as nat, empties as nat, blanks as nat)) by {
                assert(strs_view(rows@[0]@) =~= summary_rows(total_rows as nat, rs.len(), total_cells as nat, nulls as nat, empties as nat, blanks as nat)[0]);
                assert(strs_view(rows@[1]@) =~= summary_rows(total_rows as nat, rs.len(), total_cells as nat, nulls as nat, empties as nat, blanks as nat)[1]);
                assert(strs_view(rows@[2]@) =~= summary_rows(total_rows as nat, rs.len(), total_cells as nat, nulls as nat, empties as nat, blanks as nat)[2]);
                assert(strs_view(rows@[3]@) =~= summary_rows(total_rows as nat, rs.len(), total_cells as nat, nulls as nat, empties as nat, blanks as nat)[3]);
                assert(strs_view(rows@[4]@) =~= summary_rows(total_rows as nat, rs.len(), total_cells as nat, nulls as nat, empties as nat, blanks as nat)[4]);
                assert(strs_view(rows@[5]@) =~= summary_rows(total_rows as nat, rs.len(), total_cells as nat, nulls as nat, empties as nat, blanks as nat)[5]);
            }
        }
        let mut out = owned("=== PROCESSING SUMMARY ===\n");
        let table = self.format_table_owned(table_headers.as_slice(), rows.as_slice());
        out.push_str(table.as_str());
        out.push_str("Dataset: ");
        push_decimal(&mut out, total_rows as u128);
        out.push_str(" rows × ");
        push_decimal(&mut out, nh as u128);
        out.push_str(" columns = ");
        push_decimal(&mut out, total_cells as u128);
        out.push_str(" total cells\n");
        proof {
            assert(out@ =~= summary_text(rs, strs_view(headers@), self.spec_max_col_width(), self.spec_show_truncation()));
        }
        out
    }

    fn format_comprehensive_table(&self, results: &[ChunkProcessingResult], headers: &[String], totals: &(HashMap<usize, usize>, HashMap<usize, usize>, HashMap<usize, usize>, usize)) -> (r: String)
        requires
            renderable(results@, headers@.len() as nat),
            totals.3 == sum_rows(results@),
            forall|c: usize| #[trigger] count_of(totals.0@, c) == sum_counts(results@, CheckKind::NullLike, c),
            forall|c: usize| #[trigger] count_of(totals.1@, c) == sum_counts(results@, CheckKind::Empty, c),
            forall|c: usize| #[trigger] count_of(totals.2@, c) == sum_counts(results@, CheckKind::WhitespaceOnly, c),
        ensures
            r@ == comprehensive_text(results@, strs_view(headers@), self.spec_max_col_width(), self.spec_show_truncation()),
    {
        let ghost rs = results@;
        let ghost hs = strs_view(headers@);
        let ghost maxw = self.spec_max_col_width();
        let ghost show = self.spec_show_truncation();
        let total_rows = totals.3;
        let table_headers = vec![
            owned("Column"), owned("Column Name"), owned("NULL Count"), owned("NULL % of Column"),
            owned("Empty Count"), owned("Empty % of Column"), owned("Whitespace Count"), owned("Whitespace % of Column"),
        ];
        let nh = headers.len();
        let mut rows: Vec<Vec<String>> = Vec::new();
        for c in 0..nh
            invariant
                nh == headers@.len(),
                hs == strs_view(headers@),
                maxw == self.spec_max_col_width(),
                show == self.spec_show_truncation(),
                total_rows == sum_rows(rs),
                forall|x: usize| #[trigger] count_of(totals.0@, x) == sum_counts(rs, CheckKind::NullLike, x),
                forall|x: usize| #[trigger] count_of(totals.1@, x) == sum_counts(rs, CheckKind::Empty, x),
                forall|x: usize| #[trigger] count_of(totals.2@, x) == sum_counts(rs, CheckKind::WhitespaceOnly, x),
                rows_view(rows@) == Seq::new(c as nat, |j: int| comprehensive_row(rs, hs, j, maxw, show)),
        {
            let n = count_at(&totals.0, c);
            let e = count_at(&totals.1, c);
            let w = count_at(&totals.2, c);
            let row = vec![
                dec_string(c), self.truncate_string(headers[c].as_str()),
                dec_string(n), pct_string(n, total_rows, 1),
                dec_string(e), pct_string(e, total_rows, 1),
                dec_string(w), pct_string(w, total_rows, 1),
            ];
            proof {
                assert(hs[c as int] == headers@[c as int]@);
                assert(strs_view(row@) =~= comprehensive_row(rs, hs, c as int, maxw, show));
            }
            let ghost before = rows@;
            rows.push(row);
            proof {
                assert(rows_view(before).len() == c);
                assert(rows@ == before.push(row));
                assert forall|j: int| 0 <= j < c + 1 implies #[trigger] rows_view(rows@)[j] == comprehensive_row(rs, hs, j, maxw, show) by {
                    if j < c {
                        assert(rows@[j] == before[j]);
                        assert(rows_view(before)[j] == comprehensive_row(rs, hs, j, maxw, show));
                    }
                }
                assert(rows_view(rows@) =~= Seq::new((c + 1) as nat, |j: int| comprehensive_row(rs, hs, j, maxw, show)));
            }
        }
        let mut out = owned("=== DATA QUALITY SUMMARY BY COLUMN ===\n");
        let table = self.format_table_owned(table_headers.as_slice(), rows.as_slice());
        out.push_str(table.as_str());
        proof {
            assert(strs_view(table_headers@) =~= comprehensive_headers());
            assert(out@ =~= comprehensive_text(rs, hs, maxw, show));
        }
        out
    }

    fn format_issues_table(&self, results: &[ChunkProcessingResult], headers: &[String], counts: &HashMap<usize, usize>, total_rows: usize, label: &str, upper: &str, lower: &str, k: CheckKind) -> (r: String)
        requires
            renderable(results@, headers@.len() as nat),
            total_rows == sum_rows(results@),
            forall|c: usize| #[trigger] count_of(counts@, c) == sum_counts(results@, k, c),
        ensures
            r@ == issues_text(results@, strs_view(headers@), k, label@, upper@, lower@, self.spec_max_col_width(), self.spec_show_truncation()),
    {
        let ghost rs = results@;
        let ghost hs = strs_view(headers@);
        let ghost maxw = self.spec_max_col_width();
        let ghost show = self.spec_show_truncation();
        let nh = headers.len();
        let total_issues = check_total_of(results, k);
        let mut count_title = owned(label);
        count_title.push_str(" Count");
        let mut share_title = owned("% of All ");
        share_title.push_str(label);
        let table_headers = vec![owned("Column"), owned("Column Name"), count_title, share_title, owned("% of Column Rows")];
        let mut rows: Vec<Vec<String>> = Vec::new();
        for c in 0..nh
            invariant
                nh == headers@.len(),
                hs == strs_view(headers@),
                maxw == self.spec_max_col_width(),
                show == self.spec_show_truncation(),
                total_rows == sum_rows(rs),
                total_issues == check_total(rs, k),
                forall|x: usize| #[trigger] count_of(counts@, x) == sum_counts(rs, k, x),
                rows_view(rows@) == Seq::new(c as nat, |j: int| issues_row(rs, hs, k, j, maxw, show)),
        {
            let count = count_at(counts, c);
            let share = if count > 0 { pct_string(count, total_issues, 1) } else { owned("-") };
            let row = vec![
                dec_string(c), self.truncate_string(headers[c].as_str()), dec_string(count),
                share, pct_string(count, total_rows, 3),
            ];
            proof {
                assert(hs[c as int] == headers@[c as int]@);
                assert(strs_view(row@) =~= issues_row(rs, hs, k, c as int, maxw, show));
            }
            let ghost before = rows@;
            rows.push(row);
            proof {
                assert(rows_view(before).len() == c);
                assert(rows@ == before.push(row));
                assert forall|j: int| 0 <= j < c + 1 implies #[trigger] rows_view(rows@)[j] == issues_row(rs, hs, k, j, maxw, show) by {
                    if j < c {
                        assert(rows@[j] == before[j]);
                        assert(rows_view(before)[j] == issues_row(rs, hs, k, j, maxw, show));
                    }
                }
                assert(rows_view(rows@) =~= Seq::new((c + 1) as nat, |j: int| issues_row(rs, hs, k, j, maxw, show)));
            }
        }
        let mut out = owned("=== ");
        out.push_str(upper);
        out.push_str(" VALUES ===\n");
        let table = self.format_table_owned(table_headers.as_slice(), rows.as_slice());
        out.push_str(table.as_str());
        out.push_str("Total ");
        out.push_str(lower);
        out.push_str(" values: ");
        push_decimal(&mut out, total_issues as u128);
        out.push_str(" (");
        let cells = total_rows * nh;
        let p = pct_string(total_issues, cells, 3);
        out.push_str(p.as_str());
        out.push_str(" of all cells in dataset)\n");
        proof {
            assert(strs_view(table_headers@) =~= issues_headers(label@));
            assert(out@ =~= issues_text(rs, hs, k, label@, upper@, lower@, maxw, show));
        }
        out
    }

    /// Renders a run's chunk results: a processing summary, a by-column summary, and one
    /// table per check. Totals cover every column; the tables list the header columns.
    /// Percentages are exact decimal roundings (half to even) and 0 where the denominator
    /// is 0.
    pub fn format_chunk_results(&self, results: &[ChunkProcessingResult], headers: &[String]) -> (r: String)
        requires
            renderable(results@, headers@.len() as nat),
        ensures
            r@ == chunk_results_text(results@, strs_view(headers@), self.spec_max_col_width(), self.spec_show_truncation()),
    {
        let ghost hs = strs_view(headers@);
        let ghost maxw = self.spec_max_col_width();
        let ghost show = self.spec_show_truncation();
        let ghost part_summary = summary_text(results@, hs, maxw, show);
        let ghost part_columns = comprehensive_text(results@, hs, maxw, show);
        let ghost part_nulls = issues_text(results@, hs, CheckKind::NullLike, "NULL-like"@, "NULL-LIKE"@, "null-like"@, maxw, show);
        let ghost part_empties = issues_text(results@, hs, CheckKind::Empty, "Empty"@, "EMPTY"@, "empty"@, maxw, show);
        let ghost part_blanks = issues_text(results@, hs, CheckKind::WhitespaceOnly, "Whitespace"@, "WHITESPACE"@, "whitespace"@, maxw, show);
        let totals = aggregate_results(results);
        let mut output = self.format_summary_table(results, headers, &totals);
        output.push('\n');
        let t = self.format_comprehensive_table(results, headers, &totals);
        output.push_str(t.as_str());
        output.push('\n');
        proof {
            assert(output@ =~= part_summary + seq!['\n'] + part_columns + seq!['\n']);
        }
        let t = self.format_issues_table(results, headers, &totals.0, totals.3, "NULL-like", "NULL-LIKE", "null-like", CheckKind::NullLike);
        output.push_str(t.as_str());
        output.push('\n');
        proof {
            assert(output@ =~= part_summary + seq!['\n'] + part_columns + seq!['\n'] + part_nulls + seq!['\n']);
        }
        let t = self.format_issues_table(results, headers, &totals.1, totals.3, "Empty", "EMPTY", "empty", CheckKind::Empty);
        output.push_str(t.as_str());
        output.push('\n');
        let t = self.format_issues_table(results, headers, &totals.2, totals.3, "Whitespace", "WHITESPACE", "whitespace", CheckKind::WhitespaceOnly);
        output.push_str(t.as_str());
        proof {
            assert(output@ =~= part_summary + seq!['\n'] + part_columns + seq!['\n'] + part_nulls + seq!['\n'] + part_empties + seq!['\n'] + part_blanks);
        }
        output
    }
}

} // verus!
