//! The reporter: renders aggregated statistics as a human-readable
//! comparison table, one row per configuration, in the order the
//! configurations were benchmarked. Pure formatting — no side effects.

use vstd::prelude::*;
use vstd::string::StringExecFns;
use crate::stats::SummaryStats;

verus! {

/// The character for one decimal digit.
pub open spec fn digit_char(d: nat) -> char {
    if d == 0 {
        '0'
    } else if d == 1 {
        '1'
    } else if d == 2 {
        '2'
    } else if d == 3 {
        '3'
    } else if d == 4 {
        '4'
    } else if d == 5 {
        '5'
    } else if d == 6 {
        '6'
    } else if d == 7 {
        '7'
    } else if d == 8 {
        '8'
    } else {
        '9'
    }
}

/// The decimal digits of `n`, most significant first.
pub open spec fn dec_seq(n: nat) -> Seq<char>
    decreases n,
{
    if n < 10 {
        seq![digit_char(n)]
    } else {
        dec_seq(n / 10).push(digit_char(n % 10))
    }
}

/// One decimal digit as text.
fn digit_str(d: u128) -> (s: &'static str)
    requires
        d < 10,
    ensures
        s@ == seq![digit_char(d as nat)],
{
    if d == 0 {
        proof {
            reveal_strlit("0");
            assert("0"@ =~= seq![digit_char(0)]);
        }
        "0"
    } else if d == 1 {
        proof {
            reveal_strlit("1");
            assert("1"@ =~= seq![digit_char(1)]);
        }
        "1"
    } else if d == 2 {
        proof {
            reveal_strlit("2");
            assert("2"@ =~= seq![digit_char(2)]);
        }
        "2"
    } else if d == 3 {
        proof {
            reveal_strlit("3");
            assert("3"@ =~= seq![digit_char(3)]);
        }
        "3"
    } else if d == 4 {
        proof {
            reveal_strlit("4");
            assert("4"@ =~= seq![digit_char(4)]);
        }
        "4"
    } else if d == 5 {
        proof {
            reveal_strlit("5");
            assert("5"@ =~= seq![digit_char(5)]);
        }
        "5"
    } else if d == 6 {
        proof {
            reveal_strlit("6");
            assert("6"@ =~= seq![digit_char(6)]);
        }
        "6"
    } else if d == 7 {
        proof {
            reveal_strlit("7");
            assert("7"@ =~= seq![digit_char(7)]);
        }
        "7"
    } else if d == 8 {
        proof {
            reveal_strlit("8");
            assert("8"@ =~= seq![digit_char(8)]);
        }
        "8"
    } else {
        proof {
            reveal_strlit("9");
            assert("9"@ =~= seq![digit_char(9)]);
        }
        "9"
    }
}

/// Renders a number in decimal, most significant digit first.
pub fn format_u128(n: u128) -> (s: String)
    ensures
        s@ == dec_seq(n as nat),
    decreases n,
{
    if n < 10 {
        digit_str(n).to_owned()
    } else {
        let mut s = format_u128(n / 10);
        s.append(digit_str(n % 10));
        proof {
            assert(s@ =~= dec_seq(n as nat));
        }
        s
    }
}

/// What one report row states: the configuration's label followed by its
/// sample count, mean duration, derived throughput, standard deviation and
/// confidence half-width, and the outlier-adjusted throughput beside the
/// number of flagged outliers.
pub open spec fn render_row_spec(label: Seq<char>, s: SummaryStats) -> Seq<char> {
    label + ": samples "@ + dec_seq(s.count as nat) + ", mean "@ + dec_seq(s.mean_nanos as nat)
        + " ns, throughput "@ + dec_seq(s.throughput_per_sec as nat) + " elems/s, std dev "@
        + dec_seq(s.std_dev_nanos as nat) + " ns, ci +/- "@ + dec_seq(s.ci_half_width_nanos as nat)
        + " ns, outliers "@ + dec_seq(s.outlier_count as nat) + ", adjusted throughput "@
        + dec_seq(s.adjusted_throughput_per_sec as nat) + " elems/s"@
}

/// Renders one configuration's summary as a report row.
pub fn render_row(label: &str, s: &SummaryStats) -> (out: String)
    ensures
        out@ == render_row_spec(label@, *s),
{
    let mut out = label.to_owned();
    out.append(": samples ");
    out.append(format_u128(s.count as u128).as_str());
    out.append(", mean ");
    out.append(format_u128(s.mean_nanos).as_str());
    out.append(" ns, throughput ");
    out.append(format_u128(s.throughput_per_sec).as_str());
    out.append(" elems/s, std dev ");
    out.append(format_u128(s.std_dev_nanos as u128).as_str());
    out.append(" ns, ci +/- ");
    out.append(format_u128(s.ci_half_width_nanos).as_str());
    out.append(" ns, outliers ");
    out.append(format_u128(s.outlier_count as u128).as_str());
    out.append(", adjusted throughput ");
    out.append(format_u128(s.adjusted_throughput_per_sec).as_str());
    out.append(" elems/s");
    out
}

/// One rendered-report entry: a configuration label and its summary.
pub struct ReportRow {
    pub label: String,
    pub stats: SummaryStats,
}

/// What the whole report states: one row per configuration, each on its own
/// line, in the order the configurations were benchmarked.
pub open spec fn render_report_spec(rows: Seq<ReportRow>) -> Seq<char>
    decreases rows.len(),
{
    if rows.len() == 0 {
        Seq::empty()
    } else {
        render_report_spec(rows.drop_last()) + render_row_spec(
            rows.last().label@,
            rows.last().stats,
        ) + "\n"@
    }
}

/// Renders the final comparison table.
pub fn render_report(rows: &Vec<ReportRow>) -> (out: String)
    ensures
        out@ == render_report_spec(rows@),
{
    let mut out = String::new();
    let mut i: usize = 0;
    while i < rows.len()
        invariant
            i <= rows@.len(),
            out@ == render_report_spec(rows@.take(i as int)),
        decreases rows@.len() - i,
    {
        let row = &rows[i];
        let line = render_row(row.label.as_str(), &row.stats);
        out.append(line.as_str());
        out.append("\n");
        proof {
            assert(rows@.take(i + 1).drop_last() =~= rows@.take(i as int));
            assert(rows@.take(i + 1).last() == rows@[i as int]);
            assert(out@ =~= render_report_spec(rows@.take(i + 1)));
        }
        i = i + 1;
    }
    proof {
        assert(rows@.take(rows@.len() as int) =~= rows@);
    }
    out
}

} // verus!
