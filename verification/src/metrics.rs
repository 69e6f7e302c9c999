//! The metrics sink: request counters, byte totals, latency bounds and the
//! latency histogram.

use crate::histogram::LatencyHistogram;
use crate::text::{decimal, decimal_string};
use vstd::multiset::Multiset;
use vstd::prelude::*;
use vstd::string::*;

verus! {

pub const MICROS_PER_MS: u64 = 1_000;

pub const MICROS_PER_SEC: u64 = 1_000_000;

pub const MICROS_PER_MIN: u64 = 60_000_000;

pub const MICROS_PER_HOUR: u64 = 3_600_000_000;

/// What a `Metrics` value stands for.
pub ghost struct MetricsView {
    pub total: u64,
    pub successful: u64,
    pub failed: u64,
    pub bytes_sent: u64,
    pub bytes_received: u64,
    pub min_latency: u64,
    pub max_latency: u64,
    pub samples: Multiset<u64>,
}

impl MetricsView {
    /// The state before anything was counted or recorded.
    pub open spec fn fresh() -> MetricsView {
        MetricsView {
            total: 0,
            successful: 0,
            failed: 0,
            bytes_sent: 0,
            bytes_received: 0,
            min_latency: u64::MAX,
            max_latency: 0,
            samples: Multiset::empty(),
        }
    }

    /// The state after one more latency sample.
    pub open spec fn recorded(self, us: u64) -> MetricsView {
        MetricsView {
            min_latency: if us < self.min_latency {
                us
            } else {
                self.min_latency
            },
            max_latency: if us > self.max_latency {
                us
            } else {
                self.max_latency
            },
            samples: self.samples.insert(us),
            ..self
        }
    }

    /// Every sample lies between the latency bounds.
    pub open spec fn within_bounds(self) -> bool {
        forall|s: u64| #[trigger]
            self.samples.contains(s) ==> self.min_latency <= s <= self.max_latency
    }

    /// The latency bounds are those of the samples: every sample lies
    /// between them, and both are samples once there is one.
    pub open spec fn bounds_hold(self) -> bool {
        &&& forall|s: u64| #[trigger]
            self.samples.contains(s) ==> self.min_latency <= s <= self.max_latency
        &&& self.samples.len() == 0 ==> self.min_latency == u64::MAX && self.max_latency == 0
        &&& self.samples.len() > 0 ==> self.samples.contains(self.min_latency)
            && self.samples.contains(self.max_latency)
    }

    /// Every request counted in `total` is counted as successful or failed, and
    /// `extra_failures` failures belong to no request.
    pub open spec fn settled(self, extra_failures: nat) -> bool {
        self.total + extra_failures == self.successful + self.failed
    }

    /// No counter and no byte total is smaller in `later` than in `self`.
    pub open spec fn counters_le(self, later: MetricsView) -> bool {
        &&& self.total <= later.total
        &&& self.successful <= later.successful
        &&& self.failed <= later.failed
        &&& self.bytes_sent <= later.bytes_sent
        &&& self.bytes_received <= later.bytes_received
    }
}

/// One update of the sink.
pub ghost enum MetricsOp {
    CountRequest,
    CountSuccess,
    CountFailure,
    AddSent(u64),
    AddReceived(u64),
    Record(u64),
}

impl MetricsView {
    /// The state after one update. Counters and byte totals wrap around.
    pub open spec fn after(self, op: MetricsOp) -> MetricsView {
        match op {
            MetricsOp::CountRequest => MetricsView { total: self.total.wrapping_add(1), ..self },
            MetricsOp::CountSuccess => MetricsView {
                successful: self.successful.wrapping_add(1),
                ..self
            },
            MetricsOp::CountFailure => MetricsView { failed: self.failed.wrapping_add(1), ..self },
            MetricsOp::AddSent(n) => MetricsView {
                bytes_sent: self.bytes_sent.wrapping_add(n),
                ..self
            },
            MetricsOp::AddReceived(n) => MetricsView {
                bytes_received: self.bytes_received.wrapping_add(n),
                ..self
            },
            MetricsOp::Record(us) => self.recorded(us),
        }
    }

    /// Whether an update stays below `u64::MAX`, so that nothing wraps around.
    pub open spec fn fits(self, op: MetricsOp) -> bool {
        match op {
            MetricsOp::CountRequest => self.total < u64::MAX,
            MetricsOp::CountSuccess => self.successful < u64::MAX,
            MetricsOp::CountFailure => self.failed < u64::MAX,
            MetricsOp::AddSent(n) => self.bytes_sent + n <= u64::MAX,
            MetricsOp::AddReceived(n) => self.bytes_received + n <= u64::MAX,
            MetricsOp::Record(us) => true,
        }
    }
}

/// No update that fits makes a counter or a byte total smaller.
pub proof fn lemma_update_monotonic(v: MetricsView, op: MetricsOp)
    requires
        v.fits(op),
    ensures
        v.counters_le(v.after(op)),
{
}

/// Every update keeps the latency bounds, whether it fits or not.
pub proof fn lemma_update_keeps_bounds(v: MetricsView, op: MetricsOp)
    requires
        v.bounds_hold(),
    ensures
        v.after(op).bounds_hold(),
{
    match op {
        MetricsOp::Record(us) => {
            lemma_record_keeps_bounds(v, us);
        },
        _ => {},
    }
}

/// A fresh sink holds its latency bounds.
pub proof fn lemma_fresh_bounds()
    ensures
        MetricsView::fresh().bounds_hold(),
{
}

/// Recording a sample keeps the latency bounds: after it, every sample lies
/// between the minimum and the maximum, the new one included.
pub proof fn lemma_record_keeps_bounds(v: MetricsView, us: u64)
    requires
        v.bounds_hold(),
    ensures
        v.recorded(us).bounds_hold(),
        v.recorded(us).min_latency <= us <= v.recorded(us).max_latency,
{
    let w = v.recorded(us);
    assert(w.samples.contains(us));
    assert(w.samples.len() == v.samples.len() + 1);
    assert forall|s: u64| #[trigger] w.samples.contains(s) implies w.min_latency <= s
        <= w.max_latency by {
        if s != us {
            assert(v.samples.contains(s));
        }
    }
    if v.samples.len() > 0 {
        assert(w.samples.contains(v.min_latency));
        assert(w.samples.contains(v.max_latency));
    }
}

/// The sink that workers report to.
pub struct Metrics {
    hist: LatencyHistogram,
    min_latency: u64,
    max_latency: u64,
    bytes_sent: u64,
    bytes_received: u64,
    total_requests: u64,
    successful_requests: u64,
    failed_requests: u64,
}

impl View for Metrics {
    type V = MetricsView;

    closed spec fn view(&self) -> MetricsView {
        MetricsView {
            total: self.total_requests,
            successful: self.successful_requests,
            failed: self.failed_requests,
            bytes_sent: self.bytes_sent,
            bytes_received: self.bytes_received,
            min_latency: self.min_latency,
            max_latency: self.max_latency,
            samples: self.hist.samples(),
        }
    }
}

impl Metrics {
    /// Every sample lies between the latency bounds.
    #[verifier::type_invariant]
    spec fn samples_within_bounds(&self) -> bool {
        forall|s: u64| #[trigger]
            self.hist.samples().contains(s) ==> self.min_latency <= s <= self.max_latency
    }

    /// A sink with all counters at zero and no sample.
    pub fn new() -> (m: Self)
        ensures
            m@ == MetricsView::fresh(),
    {
        Metrics {
            hist: LatencyHistogram::new(),
            min_latency: u64::MAX,
            max_latency: 0,
            bytes_sent: 0,
            bytes_received: 0,
            total_requests: 0,
            successful_requests: 0,
            failed_requests: 0,
        }
    }

    /// Counts one request. The counter wraps around at `u64::MAX`.
    pub fn increment_total_requests(&mut self)
        ensures
            final(self)@ == (MetricsView { total: old(self)@.total.wrapping_add(1), ..old(self)@ }),
    {
        proof {
            use_type_invariant(&*self);
        }
        self.total_requests = self.total_requests.wrapping_add(1);
    }

    /// Counts one successful request. The counter wraps around at `u64::MAX`.
    pub fn increment_successful_requests(&mut self)
        ensures
            final(self)@ == (MetricsView {
                successful: old(self)@.successful.wrapping_add(1),
                ..old(self)@
            }),
    {
        proof {
            use_type_invariant(&*self);
        }
        self.successful_requests = self.successful_requests.wrapping_add(1);
    }

    /// Counts one failure. The counter wraps around at `u64::MAX`.
    pub fn increment_failed_requests(&mut self)
        ensures
            final(self)@ == (MetricsView {
                failed: old(self)@.failed.wrapping_add(1),
                ..old(self)@
            }),
    {
        proof {
            use_type_invariant(&*self);
        }
        self.failed_requests = self.failed_requests.wrapping_add(1);
    }

    /// Adds to the octets sent. The total wraps around at `u64::MAX`.
    pub fn add_bytes_sent(&mut self, bytes: u64)
        ensures
            final(self)@ == (MetricsView {
                bytes_sent: old(self)@.bytes_sent.wrapping_add(bytes),
                ..old(self)@
            }),
    {
        proof {
            use_type_invariant(&*self);
        }
        self.bytes_sent = self.bytes_sent.wrapping_add(bytes);
    }

    /// Adds to the octets received. The total wraps around at `u64::MAX`.
    pub fn add_bytes_received(&mut self, bytes: u64)
        ensures
            final(self)@ == (MetricsView {
                bytes_received: old(self)@.bytes_received.wrapping_add(bytes),
                ..old(self)@
            }),
    {
        proof {
            use_type_invariant(&*self);
        }
        self.bytes_received = self.bytes_received.wrapping_add(bytes);
    }

    /// The requests counted so far.
    pub fn total_requests(&self) -> (n: u64)
        ensures
            n == self@.total,
    {
        self.total_requests
    }

    /// The requests that succeeded.
    pub fn successful_requests(&self) -> (n: u64)
        ensures
            n == self@.successful,
    {
        self.successful_requests
    }

    /// The requests that failed, and the workers that could not be set up.
    pub fn failed_requests(&self) -> (n: u64)
        ensures
            n == self@.failed,
    {
        self.failed_requests
    }

    /// The octets sent.
    pub fn bytes_sent(&self) -> (n: u64)
        ensures
            n == self@.bytes_sent,
    {
        self.bytes_sent
    }

    /// The octets received.
    pub fn bytes_received(&self) -> (n: u64)
        ensures
            n == self@.bytes_received,
    {
        self.bytes_received
    }

    /// Records one latency sample, in microseconds, and widens the latency
    /// bounds to hold it.
    pub fn record_latency(&mut self, latency: u64)
        ensures
            final(self)@ == old(self)@.recorded(latency),
            final(self)@.within_bounds(),
    {
        proof {
            use_type_invariant(&*self);
        }
        if latency < self.min_latency {
            self.min_latency = latency;
        }
        if latency > self.max_latency {
            self.max_latency = latency;
        }
        proof {
            let before = self.hist.samples();
            assert forall|s: u64| #[trigger] before.insert(latency).contains(s) implies self.min_latency
                <= s <= self.max_latency by {
                if s != latency {
                    assert(before.contains(s));
                }
            }
        }
        self.hist.record(latency);
    }

    /// A copy of the latency histogram as it stands. Its samples lie
    /// between the latency bounds.
    pub fn histogram(&self) -> (h: LatencyHistogram)
        ensures
            h.samples() == self@.samples,
            self@.within_bounds(),
    {
        proof {
            use_type_invariant(self);
        }
        self.hist.snapshot()
    }

    /// The smallest latency recorded, `u64::MAX` before the first sample.
    /// No sample is below it.
    pub fn min_latency(&self) -> (us: u64)
        ensures
            us == self@.min_latency,
            forall|s: u64| #[trigger] self@.samples.contains(s) ==> us <= s,
    {
        proof {
            use_type_invariant(self);
        }
        self.min_latency
    }

    /// The largest latency recorded, 0 before the first sample. No sample
    /// is above it.
    pub fn max_latency(&self) -> (us: u64)
        ensures
            us == self@.max_latency,
            forall|s: u64| #[trigger] self@.samples.contains(s) ==> s <= us,
    {
        proof {
            use_type_invariant(self);
        }
        self.max_latency
    }

    /// Writes a duration in microseconds in its greatest unit that is not
    /// above it, as a whole number.
    pub fn format_micros(&self, us: u64) -> (s: String)
        ensures
            s@ == micros_text(us),
    {
        let (count, unit) = if us < MICROS_PER_MS {
            (us, "\u{b5}s")
        } else if us < MICROS_PER_SEC {
            (us / MICROS_PER_MS, "ms")
        } else if us < MICROS_PER_MIN {
            (us / MICROS_PER_SEC, "s")
        } else if us < MICROS_PER_HOUR {
            (us / MICROS_PER_MIN, "m")
        } else {
            (us / MICROS_PER_HOUR, "h")
        };
        proof {
            reveal_strlit("\u{b5}s");
            reveal_strlit("ms");
            reveal_strlit("s");
            reveal_strlit("m");
            reveal_strlit("h");
            assert(unit@ =~= micros_unit(us));
        }
        let mut s = decimal_string(count);
        s.append(unit);
        s
    }
}

/// The unit that `format_micros` writes `us` in.
pub open spec fn micros_unit(us: u64) -> Seq<char> {
    if us < MICROS_PER_MS {
        seq!['\u{b5}', 's']
    } else if us < MICROS_PER_SEC {
        seq!['m', 's']
    } else if us < MICROS_PER_MIN {
        seq!['s']
    } else if us < MICROS_PER_HOUR {
        seq!['m']
    } else {
        seq!['h']
    }
}

/// How many of its unit `format_micros` writes for `us`.
pub open spec fn micros_count(us: u64) -> nat {
    if us < MICROS_PER_MS {
        us as nat
    } else if us < MICROS_PER_SEC {
        (us / MICROS_PER_MS) as nat
    } else if us < MICROS_PER_MIN {
        (us / MICROS_PER_SEC) as nat
    } else if us < MICROS_PER_HOUR {
        (us / MICROS_PER_MIN) as nat
    } else {
        (us / MICROS_PER_HOUR) as nat
    }
}

/// The text of a duration of `us` microseconds.
pub open spec fn micros_text(us: u64) -> Seq<char> {
    decimal(micros_count(us)) + micros_unit(us)
}

} // verus!
