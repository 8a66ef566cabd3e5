//! A bucketed counter for one distribution of samples.

use crate::double::Double;
use vstd::arithmetic::power2::{lemma2_to64, lemma2_to64_rest, pow2};
use vstd::prelude::*;

verus! {

/// Whether `bounds` holds no NaN and rises strictly from each entry to the next.
pub open spec fn ascending(bounds: Seq<Double>) -> bool {
    &&& forall|i: int| 0 <= i < bounds.len() ==> !(#[trigger] bounds[i]).nan()
    &&& forall|i: int, j: int|
        0 <= i < j < bounds.len() ==> (#[trigger] bounds[i]).rank() < (#[trigger] bounds[j]).rank()
}

/// The first index at or after `from` whose bound is at least `value`, or the
/// number of bounds where there is none.
pub open spec fn first_fit(bounds: Seq<Double>, value: Double, from: int) -> int
    decreases bounds.len() - from,
{
    if from < 0 || from >= bounds.len() {
        bounds.len() as int
    } else if value.le_spec(bounds[from]) {
        from
    } else {
        first_fit(bounds, value, from + 1)
    }
}

/// The sum of the counts.
pub open spec fn total(counts: Seq<u64>) -> int
    decreases counts.len(),
{
    if counts.len() == 0 {
        0
    } else {
        total(counts.drop_last()) + counts.last()
    }
}

/// A count after one more sample: it wraps to zero past the largest value.
pub open spec fn bumped(count: u64) -> u64 {
    if count == u64::MAX {
        0
    } else {
        (count + 1) as u64
    }
}

/// The upper bounds of the buckets that a new histogram has: 1, 5, 10, 25, 50,
/// 100, 250, 500, 1000, 2500, 5000 and 10000 (milliseconds, where latencies
/// are recorded).
pub open spec fn default_bounds() -> Seq<Double> {
    seq![
        Double { bits: 0x3FF0_0000_0000_0000 },
        Double { bits: 0x4014_0000_0000_0000 },
        Double { bits: 0x4024_0000_0000_0000 },
        Double { bits: 0x4039_0000_0000_0000 },
        Double { bits: 0x4049_0000_0000_0000 },
        Double { bits: 0x4059_0000_0000_0000 },
        Double { bits: 0x406F_4000_0000_0000 },
        Double { bits: 0x407F_4000_0000_0000 },
        Double { bits: 0x408F_4000_0000_0000 },
        Double { bits: 0x40A3_8800_0000_0000 },
        Double { bits: 0x40B3_8800_0000_0000 },
        Double { bits: 0x40C3_8800_0000_0000 },
    ]
}

/// What a histogram holds: the upper bounds of its buckets and one count for
/// each bucket, followed by the count of the samples above every bound.
pub struct HistogramView {
    pub bounds: Seq<Double>,
    pub counts: Seq<u64>,
}

impl HistogramView {
    /// The bounds rise strictly, and there is one count more than bounds.
    pub open spec fn wf(self) -> bool {
        &&& ascending(self.bounds)
        &&& self.counts.len() == self.bounds.len() + 1
    }

    /// The bucket that takes `value`: the first whose bound is at least
    /// `value`, or the last one where `value` is above every bound or a NaN.
    pub open spec fn bucket_of(self, value: Double) -> int {
        first_fit(self.bounds, value, 0)
    }

    /// The histogram after one sample.
    pub open spec fn record(self, value: Double) -> HistogramView {
        let b = self.bucket_of(value);
        HistogramView { bounds: self.bounds, counts: self.counts.update(b, bumped(self.counts[b])) }
    }

    /// The histogram after the samples of `values`, in their order.
    pub open spec fn record_all(self, values: Seq<Double>) -> HistogramView
        decreases values.len(),
    {
        if values.len() == 0 {
            self
        } else {
            self.record_all(values.drop_last()).record(values.last())
        }
    }

    /// The histogram with every count at zero.
    pub open spec fn reset(self) -> HistogramView {
        HistogramView {
            bounds: self.bounds,
            counts: Seq::new(self.counts.len(), |i: int| 0u64),
        }
    }

    /// Whether every count is zero.
    pub open spec fn is_clear(self) -> bool {
        forall|i: int| 0 <= i < self.counts.len() ==> self.counts[i] == 0
    }

    /// The number of samples counted.
    pub open spec fn samples(self) -> int {
        total(self.counts)
    }
}

/// A histogram with fixed bounds: each sample raises the count of one bucket.
pub struct Histogram {
    bounds: Vec<Double>,
    counts: Vec<u64>,
}

impl View for Histogram {
    type V = HistogramView;

    closed spec fn view(&self) -> HistogramView {
        HistogramView { bounds: self.bounds@, counts: self.counts@ }
    }
}

/// `first_fit` from 0 is the one index before which no bound takes the value
/// and at which, unless it is the last bucket, the bound does.
pub proof fn lemma_first_fit(bounds: Seq<Double>, value: Double, from: int)
    requires
        0 <= from <= bounds.len(),
    ensures
        from <= first_fit(bounds, value, from) <= bounds.len(),
        first_fit(bounds, value, from) < bounds.len() ==> value.le_spec(
            bounds[first_fit(bounds, value, from)],
        ),
        forall|j: int| from <= j < first_fit(bounds, value, from) ==> !value.le_spec(bounds[j]),
    decreases bounds.len() - from,
{
    if from < bounds.len() && !value.le_spec(bounds[from]) {
        lemma_first_fit(bounds, value, from + 1);
    }
}

proof fn lemma_default_bounds_ascend()
    ensures
        ascending(default_bounds()),
        default_bounds().len() == 12,
{
    let b = default_bounds();
    assert(b[0].rank() == 0x3FF0_0000_0000_0000);
    assert(b[1].rank() == 0x4014_0000_0000_0000);
    assert(b[2].rank() == 0x4024_0000_0000_0000);
    assert(b[3].rank() == 0x4039_0000_0000_0000);
    assert(b[4].rank() == 0x4049_0000_0000_0000);
    assert(b[5].rank() == 0x4059_0000_0000_0000);
    assert(b[6].rank() == 0x406F_4000_0000_0000);
    assert(b[7].rank() == 0x407F_4000_0000_0000);
    assert(b[8].rank() == 0x408F_4000_0000_0000);
    assert(b[9].rank() == 0x40A3_8800_0000_0000);
    assert(b[10].rank() == 0x40B3_8800_0000_0000);
    assert(b[11].rank() == 0x40C3_8800_0000_0000);
}

/// The default bounds encode the whole numbers 1, 5, 10, 25, 50, 100, 250,
/// 500, 1000, 2500, 5000 and 10000.
pub proof fn lemma_default_bounds_are_whole()
    ensures
        default_bounds().len() == 12,
        default_bounds()[0].encodes_whole(1),
        default_bounds()[1].encodes_whole(5),
        default_bounds()[2].encodes_whole(10),
        default_bounds()[3].encodes_whole(25),
        default_bounds()[4].encodes_whole(50),
        default_bounds()[5].encodes_whole(100),
        default_bounds()[6].encodes_whole(250),
        default_bounds()[7].encodes_whole(500),
        default_bounds()[8].encodes_whole(1000),
        default_bounds()[9].encodes_whole(2500),
        default_bounds()[10].encodes_whole(5000),
        default_bounds()[11].encodes_whole(10000),
{
    lemma2_to64();
    lemma2_to64_rest();
    let b = default_bounds();
    assert(b[0].bits == (1023 + 0) * pow2(52) + (1 - pow2(0)) * pow2(52));
    assert(b[1].bits == (1023 + 2) * pow2(52) + (5 - pow2(2)) * pow2(50));
    assert(b[2].bits == (1023 + 3) * pow2(52) + (10 - pow2(3)) * pow2(49));
    assert(b[3].bits == (1023 + 4) * pow2(52) + (25 - pow2(4)) * pow2(48));
    assert(b[4].bits == (1023 + 5) * pow2(52) + (50 - pow2(5)) * pow2(47));
    assert(b[5].bits == (1023 + 6) * pow2(52) + (100 - pow2(6)) * pow2(46));
    assert(b[6].bits == (1023 + 7) * pow2(52) + (250 - pow2(7)) * pow2(45));
    assert(b[7].bits == (1023 + 8) * pow2(52) + (500 - pow2(8)) * pow2(44));
    assert(b[8].bits == (1023 + 9) * pow2(52) + (1000 - pow2(9)) * pow2(43));
    assert(b[9].bits == (1023 + 11) * pow2(52) + (2500 - pow2(11)) * pow2(41));
    assert(b[10].bits == (1023 + 12) * pow2(52) + (5000 - pow2(12)) * pow2(40));
    assert(b[11].bits == (1023 + 13) * pow2(52) + (10000 - pow2(13)) * pow2(39));
}

/// No count is larger than the sum of all counts.
pub proof fn lemma_count_within_total(counts: Seq<u64>, i: int)
    requires
        0 <= i < counts.len(),
    ensures
        counts[i] <= total(counts),
        0 <= total(counts),
    decreases counts.len(),
{
    lemma_total_not_negative(counts.drop_last());
    if i < counts.len() - 1 {
        lemma_count_within_total(counts.drop_last(), i);
    }
}

proof fn lemma_total_not_negative(counts: Seq<u64>)
    ensures
        0 <= total(counts),
    decreases counts.len(),
{
    if counts.len() > 0 {
        lemma_total_not_negative(counts.drop_last());
    }
}

/// Changing one count changes the sum by the difference.
pub proof fn lemma_total_update(counts: Seq<u64>, i: int, count: u64)
    requires
        0 <= i < counts.len(),
    ensures
        total(counts.update(i, count)) == total(counts) - counts[i] + count,
    decreases counts.len(),
{
    let changed = counts.update(i, count);
    if i < counts.len() - 1 {
        assert(changed.drop_last() =~= counts.drop_last().update(i, count));
        lemma_total_update(counts.drop_last(), i, count);
    } else {
        assert(changed.drop_last() =~= counts.drop_last());
    }
}

proof fn lemma_total_of_zeros(counts: Seq<u64>)
    requires
        forall|i: int| 0 <= i < counts.len() ==> counts[i] == 0,
    ensures
        total(counts) == 0,
    decreases counts.len(),
{
    if counts.len() > 0 {
        lemma_total_of_zeros(counts.drop_last());
    }
}

/// One sample goes to one bucket: the bounds stay, the histogram stays valid,
/// and unless that bucket's count is at its largest value the number of
/// samples counted rises by exactly one.
pub proof fn lemma_record_counts_one(h: HistogramView, value: Double)
    requires
        h.wf(),
    ensures
        h.record(value).wf(),
        h.record(value).bounds == h.bounds,
        0 <= h.bucket_of(value) < h.counts.len(),
        forall|i: int|
            0 <= i < h.counts.len() && i != h.bucket_of(value) ==> h.record(value).counts[i]
                == h.counts[i],
        h.counts[h.bucket_of(value)] < u64::MAX ==> h.record(value).samples() == h.samples() + 1,
{
    lemma_first_fit(h.bounds, value, 0);
    lemma_total_update(h.counts, h.bucket_of(value), bumped(h.counts[h.bucket_of(value)]));
}

/// After any run of samples with no reset between them, the counts sum to
/// what they summed to before plus the number of samples: from a histogram
/// whose counts are all zero, to the number of samples. Counts are 64 bits
/// wide, so this is stated for runs that keep the sum within that width.
pub proof fn lemma_every_sample_counted(h: HistogramView, values: Seq<Double>)
    requires
        h.wf(),
        h.samples() + values.len() <= u64::MAX,
    ensures
        h.record_all(values).wf(),
        h.record_all(values).bounds == h.bounds,
        h.record_all(values).samples() == h.samples() + values.len(),
        h.is_clear() ==> h.record_all(values).samples() == values.len(),
    decreases values.len(),
{
    if values.len() > 0 {
        let before = h.record_all(values.drop_last());
        lemma_every_sample_counted(h, values.drop_last());
        lemma_first_fit(before.bounds, values.last(), 0);
        lemma_count_within_total(before.counts, before.bucket_of(values.last()));
        lemma_record_counts_one(before, values.last());
    }
    if h.is_clear() {
        lemma_total_of_zeros(h.counts);
    }
}

/// A sample that is at most the first bound goes to the first bucket. One
/// that is above the last bound, or that is a NaN, goes to the last bucket,
/// the one past every bound.
pub proof fn lemma_edge_buckets(h: HistogramView, value: Double)
    requires
        h.wf(),
        h.bounds.len() > 0,
    ensures
        value.le_spec(h.bounds[0]) ==> h.bucket_of(value) == 0 && h.record(value).counts
            == h.counts.update(0, bumped(h.counts[0])),
        h.bounds.last().lt_spec(value) ==> h.bucket_of(value) == h.bounds.len(),
        value.nan() ==> h.bucket_of(value) == h.bounds.len(),
        h.bucket_of(value) == h.bounds.len() ==> h.record(value).counts == h.counts.update(
            h.bounds.len() as int,
            bumped(h.counts.last()),
        ),
{
    lemma_first_fit(h.bounds, value, 0);
    if h.bounds.last().lt_spec(value) {
        assert forall|j: int| 0 <= j < h.bounds.len() implies !value.le_spec(h.bounds[j]) by {
            if j < h.bounds.len() - 1 {
                assert(h.bounds[j].rank() < h.bounds[h.bounds.len() - 1].rank());
            }
        }
    }
}

/// A reset leaves every count at zero, so a snapshot taken right after
/// another, with no sample between them, holds only zeros.
pub proof fn lemma_reset_clears(h: HistogramView)
    requires
        h.wf(),
    ensures
        h.reset().wf(),
        h.reset().bounds == h.bounds,
        h.reset().is_clear(),
        h.reset().samples() == 0,
        h.reset().reset() == h.reset(),
{
    lemma_total_of_zeros(h.reset().counts);
    assert(h.reset().reset().counts =~= h.reset().counts);
}

impl Histogram {
    /// The validity that every histogram has.
    #[verifier::type_invariant]
    pub open spec fn inv(self) -> bool {
        self@.wf()
    }

    /// A histogram with the default bounds and every count at zero.
    pub fn new() -> (h: Histogram)
        ensures
            h@.bounds == default_bounds(),
            h@.counts == Seq::new(13, |i: int| 0u64),
            h@.wf(),
            h@.is_clear(),
    {
        let mut bounds: Vec<Double> = Vec::new();
        bounds.push(Double { bits: 0x3FF0_0000_0000_0000 });
        bounds.push(Double { bits: 0x4014_0000_0000_0000 });
        bounds.push(Double { bits: 0x4024_0000_0000_0000 });
        bounds.push(Double { bits: 0x4039_0000_0000_0000 });
        bounds.push(Double { bits: 0x4049_0000_0000_0000 });
        bounds.push(Double { bits: 0x4059_0000_0000_0000 });
        bounds.push(Double { bits: 0x406F_4000_0000_0000 });
        bounds.push(Double { bits: 0x407F_4000_0000_0000 });
        bounds.push(Double { bits: 0x408F_4000_0000_0000 });
        bounds.push(Double { bits: 0x40A3_8800_0000_0000 });
        bounds.push(Double { bits: 0x40B3_8800_0000_0000 });
        bounds.push(Double { bits: 0x40C3_8800_0000_0000 });
        let mut counts: Vec<u64> = Vec::new();
        let mut i: usize = 0;
        while i < 13
            invariant
                i <= 13,
                counts@ == Seq::new(i as nat, |k: int| 0u64),
            decreases 13 - i,
        {
            counts.push(0);
            i += 1;
            assert(counts@ =~= Seq::new(i as nat, |k: int| 0u64));
        }
        proof {
            lemma_default_bounds_ascend();
            assert(bounds@ =~= default_bounds());
        }
        Histogram { bounds, counts }
    }

    /// Counts one sample: the count of the bucket that takes `value` rises by
    /// one, and nothing else changes.
    pub fn record(&mut self, value: Double)
        ensures
            final(self)@ == old(self)@.record(value),
            final(self)@.wf(),
    {
        proof {
            use_type_invariant(&*self);
            lemma_first_fit(self.bounds@, value, 0);
        }
        let n: usize = self.bounds.len();
        let mut i: usize = 0;
        while i < n && !value.le(self.bounds[i])
            invariant
                i <= n,
                n == self.bounds.len(),
                *self == *old(self),
                first_fit(self.bounds@, value, 0) == first_fit(self.bounds@, value, i as int),
            decreases n - i,
        {
            i += 1;
        }
        let count: u64 = self.counts[i];
        let next: u64 = if count == u64::MAX {
            0
        } else {
            count + 1
        };
        self.counts[i] = next;
        assert(self.counts@ =~= old(self)@.record(value).counts);
    }

    /// Hands out the bounds and the counts, and puts every count back to zero.
    pub fn snapshot_and_reset(&mut self) -> (snapshot: (Vec<Double>, Vec<u64>))
        ensures
            snapshot.0@ == old(self)@.bounds,
            snapshot.1@ == old(self)@.counts,
            final(self)@ == old(self)@.reset(),
            final(self)@.wf(),
    {
        proof {
            use_type_invariant(&*self);
        }
        let mut bounds: Vec<Double> = Vec::new();
        let mut i: usize = 0;
        while i < self.bounds.len()
            invariant
                i <= self.bounds.len(),
                *self == *old(self),
                bounds@ == self.bounds@.take(i as int),
            decreases self.bounds.len() - i,
        {
            bounds.push(self.bounds[i]);
            i += 1;
            assert(bounds@ =~= self.bounds@.take(i as int));
        }
        assert(bounds@ =~= self.bounds@);
        let n: usize = self.counts.len();
        let mut counts: Vec<u64> = Vec::new();
        let mut k: usize = 0;
        while k < n
            invariant
                k <= n,
                n == self.counts.len(),
                n == old(self).counts.len(),
                old(self)@.wf(),
                self.bounds == old(self).bounds,
                counts@ == old(self).counts@.take(k as int),
                forall|j: int| 0 <= j < k ==> self.counts[j] == 0,
                forall|j: int| k <= j < n ==> self.counts[j] == old(self).counts[j],
            decreases n - k,
        {
            counts.push(self.counts[k]);
            self.counts[k] = 0;
            k += 1;
            assert(counts@ =~= old(self).counts@.take(k as int));
        }
        assert(counts@ =~= old(self).counts@);
        assert(self.counts@ =~= old(self)@.reset().counts);
        (bounds, counts)
    }
}

impl Default for Histogram {
    /// A histogram with the default bounds and every count at zero.
    fn default() -> (h: Histogram)
        ensures
            h@.bounds == default_bounds(),
            h@.counts == Seq::new(13, |i: int| 0u64),
            h@.wf(),
            h@.is_clear(),
    {
        Histogram::new()
    }
}

} // verus!
