//! The run-level quality report: totals, percentages and throughput as text.
use crate::aggregator::{CsvAggregator, ProcessingTime};
use crate::checks::CheckKind;
use crate::text::{decimal, div_round_even, div_round_half_even, fixed_point, pow10, pow10_exec, push_decimal, push_fixed_point};
use vstd::prelude::*;

verus! {

/// `count` as a percentage of `total`, in units of `10^-decimals` percent, rounded to the
/// nearest unit (ties to even); zero when `total` is zero.
pub open spec fn percent_scaled(count: nat, total: nat, decimals: nat) -> nat {
    if total == 0 {
        0
    } else {
        div_round_even(count * 100 * pow10(decimals), total)
    }
}

/// Computes `percent_scaled`: a division by zero yields 0.
pub fn percentage_scaled(count: usize, total: usize, decimals: u32) -> (r: u128)
    requires
        decimals <= 6,
    ensures
        r == percent_scaled(count as nat, total as nat, decimals as nat),
{
    if total == 0 {
        return 0;
    }
    let p = pow10_exec(decimals);
    proof {
        assert(count * 100 * p <= 0xffff_ffff_ffff_ffff * 100 * 1_000_000) by (nonlinear_arith)
            requires count <= 0xffff_ffff_ffff_ffff, p <= 1_000_000;
    }
    div_round_half_even(count as u128 * 100 * p, total as u128)
}

/// Rows per second in hundredths, rounded half to even; zero when no time has passed.
pub open spec fn rate_hundredths(rows: nat, millis: nat) -> nat {
    if millis == 0 {
        0
    } else {
        div_round_even(rows * 100_000, millis)
    }
}

/// One statistics line: a label, a count and its percentage of the rows with two decimals.
pub open spec fn stat_line(label: Seq<char>, n: nat, total: nat) -> Seq<char> {
    label + decimal(n) + " ("@ + fixed_point(percent_scaled(n, total, 2), 2) + "%)\n"@
}

/// The report section of one column.
pub open spec fn column_section(i: nat, header: Seq<char>, nulls: nat, empties: nat, blanks: nat, total: nat) -> Seq<char> {
    "col_"@ + decimal(i) + " ('"@ + header + "'):\n"@
        + stat_line("  NULL-like values: "@, nulls, total)
        + stat_line("  Empty values: "@, empties, total)
        + stat_line("  White-Space-Only values: "@, blanks, total)
        + "\n"@
}

/// The report lines on elapsed time and throughput, when the time is known.
pub open spec fn time_text(time: Option<ProcessingTime>, rows: nat) -> Seq<char> {
    match time {
        None => Seq::empty(),
        Some(t) => {
            let secs = t.secs as nat;
            let ms = t.millis as nat;
            let head = if secs > 60 {
                "Processing time: "@ + decimal(secs / 60) + "m "@ + decimal(secs % 60) + "s "@ + decimal(ms) + "ms\n"@
            } else {
                "Processing time: "@ + decimal(secs) + "s "@ + decimal(ms) + "ms\n"@
            };
            head + "Processing rate: "@ + fixed_point(rate_hundredths(rows, t.total_millis()), 2) + " rows/second\n"@
        },
    }
}

fn push_stat_line(s: &mut String, label: &str, n: usize, total: usize)
    ensures
        final(s)@ == old(s)@ + stat_line(label@, n as nat, total as nat),
{
    s.push_str(label);
    push_decimal(s, n as u128);
    s.push_str(" (");
    let p = percentage_scaled(n, total, 2);
    push_fixed_point(s, p, 2);
    s.push_str("%)\n");
    proof {
        assert(final(s)@ =~= old(s)@ + stat_line(label@, n as nat, total as nat));
    }
}


fn push_column_section(s: &mut String, i: usize, header: &str, nulls: usize, empties: usize, blanks: usize, total: usize)
    ensures
        final(s)@ == old(s)@ + column_section(i as nat, header@, nulls as nat, empties as nat, blanks as nat, total as nat),
{
    s.push_str("col_");
    push_decimal(s, i as u128);
    s.push_str(" ('");
    s.push_str(header);
    s.push_str("'):\n");
    push_stat_line(s, "  NULL-like values: ", nulls, total);
    push_stat_line(s, "  Empty values: ", empties, total);
    push_stat_line(s, "  White-Space-Only values: ", blanks, total);
    s.push_str("\n");
    proof {
        assert(final(s)@ =~= old(s)@ + column_section(i as nat, header@, nulls as nat, empties as nat, blanks as nat, total as nat));
    }
}

impl CsvAggregator {
    /// The sections of the first `i` columns.
    pub open spec fn columns_text(&self, i: nat) -> Seq<char>
        decreases i,
    {
        if i == 0 {
            Seq::empty()
        } else {
            let c = (i - 1) as int;
            self.columns_text((i - 1) as nat) + column_section(
                c as nat,
                self.spec_headers()[c]@,
                self.spec_total(CheckKind::NullLike, c),
                self.spec_total(CheckKind::Empty, c),
                self.spec_total(CheckKind::WhitespaceOnly, c),
                self.spec_total_rows(),
            )
        }
    }

    /// The full text of the quality report.
    pub open spec fn report_text(&self) -> Seq<char> {
        "\n=== CSV QUALITY REPORT ===\n"@
            + "Total rows processed: "@ + decimal(self.spec_total_rows()) + "\n"@
            + "Total columns: "@ + decimal(self.spec_headers().len()) + "\n\n"@
            + "Chunk size used: "@ + decimal(self.spec_chunk_size()) + " rows\n"@
            + time_text(self.spec_processing_time(), self.spec_total_rows())
            + "COLUMN STATISTICS:\n"@
            + self.columns_text(self.spec_headers().len())
    }

    /// The quality report: row and column totals, the chunk size, the elapsed time and
    /// throughput when known, and per column the count and percentage of rows of each check.
    /// Percentages are 0 when there are no rows.
    pub fn generate_report(&self) -> (r: String)
        requires
            self.wf(),
        ensures
            r@ == self.report_text(),
    {
        let headers = self.headers();
        let total_rows = self.total_rows();
        let mut report = String::new();
        report.push_str("\n=== CSV QUALITY REPORT ===\n");
        report.push_str("Total rows processed: ");
        push_decimal(&mut report, total_rows as u128);
        report.push_str("\n");
        report.push_str("Total columns: ");
        push_decimal(&mut report, headers.len() as u128);
        report.push_str("\n\n");
        report.push_str("Chunk size used: ");
        push_decimal(&mut report, self.chunk_size() as u128);
        report.push_str(" rows\n");
        let ghost before_time = report@;
        match self.processing_time() {
            None => {},
            Some(t) => {
                let secs = t.secs;
                let millis = t.millis;
                report.push_str("Processing time: ");
                if secs > 60 {
                    push_decimal(&mut report, (secs / 60) as u128);
                    report.push_str("m ");
                    push_decimal(&mut report, (secs % 60) as u128);
                    report.push_str("s ");
                } else {
                    push_decimal(&mut report, secs as u128);
                    report.push_str("s ");
                }
                push_decimal(&mut report, millis as u128);
                report.push_str("ms\n");
                report.push_str("Processing rate: ");
                let total_millis: u128 = secs as u128 * 1000 + millis as u128;
                let rate = if total_millis == 0 {
                    0
                } else {
                    div_round_half_even(total_rows as u128 * 100_000, total_millis)
                };
                push_fixed_point(&mut report, rate, 2);
                report.push_str(" rows/second\n");
            },
        }
        proof {
            assert(report@ =~= before_time + time_text(self.spec_processing_time(), self.spec_total_rows()));
        }
        report.push_str("COLUMN STATISTICS:\n");
        let ghost head = report@;
        let n = headers.len();
        for i in 0..n
            invariant
                n == self.spec_headers().len(),
                headers@ == self.spec_headers(),
                total_rows == self.spec_total_rows(),
                report@ == head + self.columns_text(i as nat),
        {
            push_column_section(
                &mut report,
                i,
                headers[i].as_str(),
                self.column_total(CheckKind::NullLike, i),
                self.column_total(CheckKind::Empty, i),
                self.column_total(CheckKind::WhitespaceOnly, i),
                total_rows,
            );
            proof {
                assert(head + self.columns_text((i + 1) as nat) =~= head + self.columns_text(i as nat) + column_section(
                    i as nat,
                    self.spec_headers()[i as int]@,
                    self.spec_total(CheckKind::NullLike, i as int),
                    self.spec_total(CheckKind::Empty, i as int),
                    self.spec_total(CheckKind::WhitespaceOnly, i as int),
                    self.spec_total_rows(),
                ));
            }
        }
        proof {
            assert(report@ =~= self.report_text());
        }
        report
    }
}

} // verus!
