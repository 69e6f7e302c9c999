//! The latency histogram: a high-dynamic-range histogram with three
//! significant digits, kept by the `hdrhistogram` crate.

use hdrhistogram::Histogram;
use vstd::multiset::Multiset;
use vstd::prelude::*;

verus! {

/// Significant decimal digits that the latency histogram keeps.
pub const SIGNIFICANT_DIGITS: u8 = 3;

/// A histogram of `u64` samples. It grows by itself to hold any sample.
#[verifier::external_body]
pub struct LatencyHistogram {
    inner: Histogram<u64>,
}

/// The samples that a histogram has been given.
pub uninterp spec fn histogram_samples(h: LatencyHistogram) -> Multiset<u64>;

/// A count as the histogram keeps it: it stops at `u64::MAX`.
pub open spec fn saturated(n: nat) -> u64 {
    if n <= u64::MAX {
        n as u64
    } else {
        u64::MAX
    }
}

/// The greatest sample of the bin that is given as `value`: the value
/// itself, but for the topmost bin, which is given as `u64::MAX - 1` and
/// holds `u64::MAX` too.
pub open spec fn bin_top(value: u64) -> u64 {
    if value == u64::MAX - 1 {
        u64::MAX
    } else {
        value
    }
}

/// Whether the sample `s` falls into the bin at `i` of a list of occupied
/// bins: it lies above the bin before, if there is one, and not above the
/// bin's greatest sample.
pub open spec fn falls_into(bins: Seq<(u64, u64)>, i: int, s: u64) -> bool {
    &&& 0 <= i < bins.len()
    &&& i > 0 ==> bins[i - 1].0 < s
    &&& s <= bin_top(bins[i].0)
}

/// The samples that fall into the bin at `i`.
pub open spec fn bin_samples(samples: Multiset<u64>, bins: Seq<(u64, u64)>, i: int) -> Multiset<
    u64,
> {
    samples.filter(|s: u64| falls_into(bins, i, s))
}

/// Whether `bins` lists the occupied bins of a histogram of `samples`, each
/// with its value and its count: there is a bin exactly where there is a
/// sample, the values ascend and stay below `u64::MAX`, every sample falls
/// into a bin, and each bin counts the samples that fall into it.
pub open spec fn are_bins_of(bins: Seq<(u64, u64)>, samples: Multiset<u64>) -> bool {
    &&& bins.len() == 0 <==> samples.len() == 0
    &&& forall|i: int, j: int| 0 <= i < j < bins.len() ==> bins[i].0 < bins[j].0
    &&& forall|i: int|
        0 <= i < bins.len() ==> (#[trigger] bins[i]).0 < u64::MAX && bins[i].1 > 0 && bins[i].1
            == saturated(bin_samples(samples, bins, i).len())
    &&& forall|s: u64| #[trigger]
        samples.contains(s) ==> exists|i: int| #[trigger] falls_into(bins, i, s)
}

/// Every listed bin holds a sample.
pub proof fn lemma_bin_holds_a_sample(bins: Seq<(u64, u64)>, samples: Multiset<u64>, i: int)
    requires
        are_bins_of(bins, samples),
        0 <= i < bins.len(),
    ensures
        exists|s: u64| #[trigger] samples.contains(s) && falls_into(bins, i, s),
{
    let held = bin_samples(samples, bins, i);
    assert(bins[i].1 > 0);
    assert(held.len() > 0);
    vstd::multiset::lemma_multiset_empty_len(held);
    let s = choose|s: u64| 0 < held.count(s);
    assert(samples.contains(s) && falls_into(bins, i, s));
}

/// A sample falls into one bin only.
pub proof fn lemma_bins_are_apart(bins: Seq<(u64, u64)>, samples: Multiset<u64>, i: int, j: int, s: u64)
    requires
        are_bins_of(bins, samples),
        falls_into(bins, i, s),
        falls_into(bins, j, s),
    ensures
        i == j,
{
    if i < j {
        // The bin at `i` is not the last, so it is not the topmost.
        assert(bins[i].0 < bins[j].0);
        if i < j - 1 {
            assert(bins[i].0 < bins[j - 1].0);
        }
    } else if j < i {
        assert(bins[j].0 < bins[i].0);
        if j < i - 1 {
            assert(bins[j].0 < bins[i - 1].0);
        }
    }
}

/// `Histogram::new`: for up to five significant digits it returns an empty
/// histogram that resizes itself as samples arrive.
#[verifier::external_body]
fn histogram_new(sigfig: u8) -> (h: LatencyHistogram)
    requires
        sigfig <= 5,
    ensures
        histogram_samples(h) == Multiset::<u64>::empty(),
{
    LatencyHistogram { inner: Histogram::new(sigfig).unwrap() }
}

/// `Histogram::record`: a histogram that resizes itself takes every sample,
/// and every `LatencyHistogram` is one.
#[verifier::external_body]
fn histogram_record(h: &mut LatencyHistogram, value: u64)
    ensures
        histogram_samples(*final(h)) == histogram_samples(*old(h)).insert(value),
    no_unwind
{
    h.inner.record(value).unwrap();
}

/// `Histogram::clone`: the copy holds the same samples.
#[verifier::external_body]
fn histogram_clone(h: &LatencyHistogram) -> (c: LatencyHistogram)
    ensures
        histogram_samples(c) == histogram_samples(*h),
{
    LatencyHistogram { inner: h.inner.clone() }
}

/// `Histogram::len`: the number of samples, which stops counting at `u64::MAX`.
#[verifier::external_body]
fn histogram_len(h: &LatencyHistogram) -> (n: u64)
    ensures
        n == saturated(histogram_samples(*h).len()),
{
    h.inner.len()
}

/// `Histogram::iter_recorded`, with `value_iterated_to` and `count_at_value`
/// of each step: it steps through all bins that hold a sample, lowest bin
/// first. An entry is the highest value that the bin stands for and the
/// bin's count, which stops at `u64::MAX`. Bins do not overlap, so a sample
/// lies above the value of every bin below its own. The topmost bin is
/// given as `u64::MAX - 1` and holds `u64::MAX` too.
#[verifier::external_body]
fn histogram_bins(h: &LatencyHistogram) -> (bins: Vec<(u64, u64)>)
    ensures
        are_bins_of(bins@, histogram_samples(*h)),
{
    h.inner.iter_recorded().map(|v| (v.value_iterated_to(), v.count_at_value())).collect()
}

impl LatencyHistogram {
    /// The samples recorded so far.
    pub open spec fn samples(self) -> Multiset<u64> {
        histogram_samples(self)
    }

    /// An empty histogram.
    pub(crate) fn new() -> (h: Self)
        ensures
            h.samples() == Multiset::<u64>::empty(),
    {
        histogram_new(SIGNIFICANT_DIGITS)
    }

    /// Adds one sample.
    pub(crate) fn record(&mut self, value: u64)
        ensures
            final(self).samples() == old(self).samples().insert(value),
        no_unwind
    {
        histogram_record(self, value)
    }

    /// A copy of the histogram as it stands.
    pub(crate) fn snapshot(&self) -> (c: Self)
        ensures
            c.samples() == self.samples(),
    {
        histogram_clone(self)
    }

    /// The number of samples, at most `u64::MAX`.
    pub fn len(&self) -> (n: u64)
        ensures
            n == saturated(self.samples().len()),
    {
        histogram_len(self)
    }

    /// The occupied bins, lowest first: each with the highest value it
    /// stands for and the number of samples that fall into it. The topmost
    /// bin is given as `u64::MAX - 1` and holds `u64::MAX` too.
    pub fn bins(&self) -> (bins: Vec<(u64, u64)>)
        ensures
            are_bins_of(bins@, self.samples()),
    {
        histogram_bins(self)
    }
}

} // verus!
