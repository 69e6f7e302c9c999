//! The report of a run: fixed lines, each a label filled up with dots and a
//! value.

use crate::metrics::{micros_text, Metrics, MetricsView};
use crate::text::{decimal, decimal_string, join, texts};
use vstd::prelude::*;
use vstd::string::*;

verus! {

/// The width of the two value columns.
pub const COLUMN_WIDTH: usize = 10;

/// `n` spaces.
pub open spec fn spaces(n: nat) -> Seq<char> {
    Seq::new(n, |i: int| ' ')
}

/// `s` filled up with spaces on the right to `width` characters.
pub open spec fn left_aligned(s: Seq<char>, width: nat) -> Seq<char> {
    if s.len() >= width {
        s
    } else {
        s + spaces((width - s.len()) as nat)
    }
}

/// `s` filled up with spaces on the left to `width` characters.
pub open spec fn right_aligned(s: Seq<char>, width: nat) -> Seq<char> {
    if s.len() >= width {
        s
    } else {
        spaces((width - s.len()) as nat) + s
    }
}

fn blanks(n: usize) -> (s: String)
    ensures
        s@ == spaces(n as nat),
{
    let mut s = String::new();
    let mut i: usize = 0;
    proof {
        reveal_strlit(" ");
        assert(s@ =~= spaces(0));
    }
    while i < n
        invariant
            i <= n,
            s@ == spaces(i as nat),
            " "@ == seq![' '],
        decreases n - i,
    {
        s.append(" ");
        i += 1;
        assert(s@ =~= spaces(i as nat));
    }
    s
}

/// Fills `s` up with spaces on the right to `width` characters.
pub fn align_left(s: &str, width: usize) -> (r: String)
    ensures
        r@ == left_aligned(s@, width as nat),
{
    let n = s.unicode_len();
    if n >= width {
        s.to_owned()
    } else {
        let pad = blanks(width - n);
        join(s, pad.as_str())
    }
}

/// Fills `s` up with spaces on the left to `width` characters.
pub fn align_right(s: &str, width: usize) -> (r: String)
    ensures
        r@ == right_aligned(s@, width as nat),
{
    let n = s.unicode_len();
    if n >= width {
        s.to_owned()
    } else {
        let pad = blanks(width - n);
        join(pad.as_str(), s)
    }
}

/// `v` brought between `lo` and `hi`.
pub open spec fn clamped(v: u64, lo: u64, hi: u64) -> u64 {
    if v < lo {
        lo
    } else if v > hi {
        hi
    } else {
        v
    }
}

/// Brings `v` between `lo` and `hi`.
pub fn clamp(v: u64, lo: u64, hi: u64) -> (r: u64)
    ensures
        r == clamped(v, lo, hi),
{
    if v < lo {
        lo
    } else if v > hi {
        hi
    } else {
        v
    }
}

/// The latencies below which the given shares of the samples lie.
#[derive(Debug, Clone, Copy, PartialEq, Eq)]
pub struct Quantiles {
    pub p50: u64,
    pub p90: u64,
    pub p95: u64,
    pub p99: u64,
    pub p99_9: u64,
    pub p99_99: u64,
}

impl Quantiles {
    /// Whether the quantiles ascend from `min` to `max`.
    pub open spec fn ascends_within(self, min: u64, max: u64) -> bool {
        min <= self.p50 <= self.p90 <= self.p95 <= self.p99 <= self.p99_9 <= self.p99_99 <= max
    }

    /// The quantiles as they are reported for samples between `min` and
    /// `max`: each is brought between the one before it and `max`, the first
    /// between `min` and `max`. Without a sample, where `min` is above
    /// `max`, they are reported as they are.
    pub open spec fn settled(self, min: u64, max: u64) -> Quantiles {
        if min > max {
            self
        } else {
            let p50 = clamped(self.p50, min, max);
            let p90 = clamped(self.p90, p50, max);
            let p95 = clamped(self.p95, p90, max);
            let p99 = clamped(self.p99, p95, max);
            let p99_9 = clamped(self.p99_9, p99, max);
            let p99_99 = clamped(self.p99_99, p99_9, max);
            Quantiles { p50, p90, p95, p99, p99_9, p99_99 }
        }
    }

    /// Brings the quantiles between the latency bounds and into ascending
    /// order. A histogram gives a quantile as the top of a bin, which may
    /// lie above the greatest sample; quantiles that ascend between the
    /// bounds stay as they are.
    pub fn settle(self, min: u64, max: u64) -> (q: Quantiles)
        ensures
            q == self.settled(min, max),
            min <= max ==> q.ascends_within(min, max),
            self.ascends_within(min, max) ==> q == self,
    {
        if min > max {
            return self;
        }
        let p50 = clamp(self.p50, min, max);
        let p90 = clamp(self.p90, p50, max);
        let p95 = clamp(self.p95, p90, max);
        let p99 = clamp(self.p99, p95, max);
        let p99_9 = clamp(self.p99_9, p99, max);
        let p99_99 = clamp(self.p99_99, p99_9, max);
        Quantiles { p50, p90, p95, p99, p99_9, p99_99 }
    }
}

/// The figures of a report that are fractions, already written out: rates
/// and percentages with two decimals, octets in their greatest unit.
#[derive(Debug)]
pub struct Figures {
    pub requests_per_second: String,
    pub success_percent: String,
    pub failure_percent: String,
    pub sent: String,
    pub sent_per_second: String,
    pub received: String,
    pub received_per_second: String,
}

/// A rate or a percentage of a run: as it was worked out, or zero with two
/// decimals where the run made no request and there is nothing to divide by.
pub open spec fn rate_text(total: u64, worked_out: Seq<char>) -> Seq<char> {
    if total == 0 {
        "0.00"@
    } else {
        worked_out
    }
}

/// A line of a count and its rate.
pub open spec fn count_line(
    label: Seq<char>,
    count: Seq<char>,
    gap: Seq<char>,
    rate: Seq<char>,
    unit: Seq<char>,
) -> Seq<char> {
    label + left_aligned(count, COLUMN_WIDTH as nat) + gap + right_aligned(
        rate,
        COLUMN_WIDTH as nat,
    ) + unit
}

/// The lines of the report. The quantiles are reported between the latency
/// bounds and in ascending order.
pub open spec fn report_text(m: MetricsView, quantiles: Quantiles, f: Figures) -> Seq<Seq<char>> {
    let q = quantiles.settled(m.min_latency, m.max_latency);
    seq![
        ""@,
        count_line(
            "Requests:......................"@,
            decimal(m.total as nat),
            " "@,
            rate_text(m.total, f.requests_per_second@),
            "/s"@,
        ),
        count_line(
            "Requests succeded:............."@,
            decimal(m.successful as nat),
            "  "@,
            rate_text(m.total, f.success_percent@),
            "%"@,
        ),
        count_line(
            "Requests failed:..............."@,
            decimal(m.failed as nat),
            "  "@,
            rate_text(m.total, f.failure_percent@),
            "%"@,
        ),
        count_line("Data sent:....................."@, f.sent@, " "@, f.sent_per_second@, "/s"@),
        count_line(
            "Data received:................."@,
            f.received@,
            " "@,
            f.received_per_second@,
            "/s"@,
        ),
        "Latencies:"@,
        "   Min:........................"@ + micros_text(m.min_latency),
        "   P(50):......................"@ + micros_text(q.p50),
        "   P(90):......................"@ + micros_text(q.p90),
        "   P(95):......................"@ + micros_text(q.p95),
        "   P(99):......................"@ + micros_text(q.p99),
        "   P(99.9):...................."@ + micros_text(q.p99_9),
        "   P(99.99):..................."@ + micros_text(q.p99_99),
        "   Max:........................"@ + micros_text(m.max_latency),
    ]
}

fn write_count_line(label: &str, count: &str, gap: &str, rate: &str, unit: &str) -> (line: String)
    ensures
        line@ == count_line(label@, count@, gap@, rate@, unit@),
{
    let mut line = join(label, align_left(count, COLUMN_WIDTH).as_str());
    line.append(gap);
    line.append(align_right(rate, COLUMN_WIDTH).as_str());
    line.append(unit);
    line
}

fn write_latency_line(metrics: &Metrics, label: &str, us: u64) -> (line: String)
    ensures
        line@ == label@ + micros_text(us),
{
    join(label, metrics.format_micros(us).as_str())
}

fn pick_rate<'a>(total: u64, worked_out: &'a str) -> (r: &'a str)
    ensures
        r@ == rate_text(total, worked_out@),
{
    if total == 0 {
        "0.00"
    } else {
        worked_out
    }
}

/// Writes the report of a run from the sink, the quantiles of its histogram
/// and the figures that were worked out from it.
pub fn report_lines(metrics: &Metrics, quantiles: &Quantiles, figures: &Figures) -> (lines: Vec<
    String,
>)
    ensures
        texts(lines@) == report_text(metrics@, *quantiles, *figures),
        metrics@.min_latency <= metrics@.max_latency ==> quantiles.settled(
            metrics@.min_latency,
            metrics@.max_latency,
        ).ascends_within(metrics@.min_latency, metrics@.max_latency),
{
    let total = metrics.total_requests();
    let given = quantiles;
    let quantiles = quantiles.settle(metrics.min_latency(), metrics.max_latency());
    let mut lines: Vec<String> = Vec::new();
    lines.push(String::from_str(""));
    lines.push(
        write_count_line(
            "Requests:......................",
            decimal_string(total).as_str(),
            " ",
            pick_rate(total, figures.requests_per_second.as_str()),
            "/s",
        ),
    );
    lines.push(
        write_count_line(
            "Requests succeded:.............",
            decimal_string(metrics.successful_requests()).as_str(),
            "  ",
            pick_rate(total, figures.success_percent.as_str()),
            "%",
        ),
    );
    lines.push(
        write_count_line(
            "Requests failed:...............",
            decimal_string(metrics.failed_requests()).as_str(),
            "  ",
            pick_rate(total, figures.failure_percent.as_str()),
            "%",
        ),
    );
    lines.push(
        write_count_line(
            "Data sent:.....................",
            figures.sent.as_str(),
            " ",
            figures.sent_per_second.as_str(),
            "/s",
        ),
    );
    lines.push(
        write_count_line(
            "Data received:.................",
            figures.received.as_str(),
            " ",
            figures.received_per_second.as_str(),
            "/s",
        ),
    );
    lines.push(String::from_str("Latencies:"));
    lines.push(
        write_latency_line(metrics, "   Min:........................", metrics.min_latency()),
    );
    lines.push(write_latency_line(metrics, "   P(50):......................", quantiles.p50));
    lines.push(write_latency_line(metrics, "   P(90):......................", quantiles.p90));
    lines.push(write_latency_line(metrics, "   P(95):......................", quantiles.p95));
    lines.push(write_latency_line(metrics, "   P(99):......................", quantiles.p99));
    lines.push(write_latency_line(metrics, "   P(99.9):....................", quantiles.p99_9));
    lines.push(write_latency_line(metrics, "   P(99.99):...................", quantiles.p99_99));
    lines.push(
        write_latency_line(metrics, "   Max:........................", metrics.max_latency()),
    );
    assert(texts(lines@) =~= report_text(metrics@, *given, *figures));
    lines
}

} // verus!
