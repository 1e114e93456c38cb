//! Histograms: distributions of recorded values over fixed buckets, such as a request duration or an order value.
//!
//! Values and bucket bounds are `f64` bit patterns (`f64::to_bits`). Filing a value into its bucket compares bit
//! patterns as [`float_le`] describes, so the library never computes with a float; the one float operation a
//! histogram needs, adding a value to a series' running total, is the caller's `accumulate`, handed each series' total
//! and the value and returning the new total.

use vstd::prelude::*;

use super::float_bits::{float_le, le_bits, sort_by_total_order, sorted_by_total_order, total_key};
use super::registry::{HistogramPoint, MetricData, MetricSnapshot};
use super::tags::{
    MAX_SERIES, Pair, TagMap, copy_tags, lemma_one_match, no_tags, overflow_pairs, overflow_tags, probe_view,
    same_tag_set, series_holds, series_match, tags_view,
};

verus! {

/// OpenTelemetry's default explicit bounds — 0, 5, 10, 25, 50, 75, 100, 250, 500, 750, 1000, 2500, 5000, 7500 and
/// 10000 — as bit patterns. They suit durations in seconds and are a defensible shape for most other quantities.
pub open spec fn default_bounds() -> Seq<u64> {
    seq![
        0x0,
        0x4014000000000000,
        0x4024000000000000,
        0x4039000000000000,
        0x4049000000000000,
        0x4052c00000000000,
        0x4059000000000000,
        0x406f400000000000,
        0x407f400000000000,
        0x4087700000000000,
        0x408f400000000000,
        0x40a3880000000000,
        0x40b3880000000000,
        0x40bd4c0000000000,
        0x40c3880000000000,
    ]
}

/// Appends `x` to bounds that ascend and that it does not precede, so they still ascend.
fn push_ascending(v: &mut Vec<u64>, x: u64)
    requires
        sorted_by_total_order(old(v)@),
        old(v)@.len() > 0 ==> total_key(old(v)@.last()) <= total_key(x),
    ensures
        final(v)@ == old(v)@.push(x),
        sorted_by_total_order(final(v)@),
{
    v.push(x);
}

/// The default bounds, to store. They ascend.
fn default_bounds_vec() -> (v: Vec<u64>)
    ensures
        v@ == default_bounds(),
        sorted_by_total_order(v@),
{
    let mut v: Vec<u64> = Vec::new();
    push_ascending(&mut v, 0x0);
    push_ascending(&mut v, 0x4014000000000000);
    push_ascending(&mut v, 0x4024000000000000);
    push_ascending(&mut v, 0x4039000000000000);
    push_ascending(&mut v, 0x4049000000000000);
    push_ascending(&mut v, 0x4052c00000000000);
    push_ascending(&mut v, 0x4059000000000000);
    push_ascending(&mut v, 0x406f400000000000);
    push_ascending(&mut v, 0x407f400000000000);
    push_ascending(&mut v, 0x4087700000000000);
    push_ascending(&mut v, 0x408f400000000000);
    push_ascending(&mut v, 0x40a3880000000000);
    push_ascending(&mut v, 0x40b3880000000000);
    push_ascending(&mut v, 0x40bd4c0000000000);
    push_ascending(&mut v, 0x40c3880000000000);
    assert(v@ =~= default_bounds());
    v
}

/// One series of a histogram: a count per bucket, how many values were recorded, and their total's bit pattern.
pub struct BucketsView {
    /// One count per bucket, one longer than the bounds: the last catches everything above the final bound.
    pub counts: Seq<u64>,
    /// How many values were recorded.
    pub count: u64,
    /// Their running total, as an `f64` bit pattern.
    pub sum_bits: u64,
}

/// A series nothing was recorded into, for a histogram with `bound_count` bounds: its total is `0.0`.
pub open spec fn empty_buckets(bound_count: nat) -> BucketsView {
    BucketsView { counts: Seq::new(bound_count + 1, |i: int| 0u64), count: 0, sum_bits: 0 }
}

/// The bucket `value` falls in: the first whose upper bound it does not exceed, or the last, which catches
/// everything above the final bound (a NaN among them, which no bound holds).
pub open spec fn bucket_of(bounds: Seq<u64>, value: u64) -> nat
    decreases bounds.len(),
{
    if bounds.len() == 0 {
        0
    } else if float_le(value, bounds[0]) {
        0
    } else {
        1 + bucket_of(bounds.drop_first(), value)
    }
}

/// A series after `value` was recorded into it, its total becoming `sum`: its bucket and its count go up by one
/// (wrapping, as the atomic counters they stand for do).
pub open spec fn recorded(b: BucketsView, bounds: Seq<u64>, value: u64, sum: u64) -> BucketsView {
    let k = bucket_of(bounds, value) as int;
    BucketsView { counts: b.counts.update(k, b.counts[k].wrapping_add(1)), count: b.count.wrapping_add(1), sum_bits: sum }
}

/// The sum of `counts`.
pub open spec fn total(counts: Seq<u64>) -> int
    decreases counts.len(),
{
    if counts.len() == 0 {
        0
    } else {
        total(counts.drop_last()) + counts.last()
    }
}

/// How far a 64-bit counter goes before it wraps.
pub open spec fn wrap() -> int {
    0x1_0000_0000_0000_0000
}

/// Whether a series' count is the sum of its bucket counts, as far as 64 bits hold it.
pub open spec fn consistent(b: BucketsView) -> bool {
    b.count as int == total(b.counts) % wrap()
}

/// Changing one count changes the sum by the difference.
proof fn lemma_total_update(s: Seq<u64>, k: int, v: u64)
    requires
        0 <= k < s.len(),
    ensures
        total(s.update(k, v)) == total(s) - s[k] + v,
    decreases s.len(),
{
    if k == s.len() - 1 {
        assert(s.update(k, v).drop_last() =~= s.drop_last());
    } else {
        lemma_total_update(s.drop_last(), k, v);
        assert(s.update(k, v).drop_last() =~= s.drop_last().update(k, v));
    }
}

/// No sum is negative.
proof fn lemma_total_nonnegative(s: Seq<u64>)
    ensures
        total(s) >= 0,
    decreases s.len(),
{
    if s.len() > 0 {
        lemma_total_nonnegative(s.drop_last());
    }
}

/// Nothing counted sums to nothing.
proof fn lemma_total_zeros(n: nat)
    ensures
        total(Seq::new(n, |i: int| 0u64)) == 0,
    decreases n,
{
    if n > 0 {
        lemma_total_zeros((n - 1) as nat);
        assert(Seq::new(n, |i: int| 0u64).drop_last() =~= Seq::new((n - 1) as nat, |i: int| 0u64));
    }
}

/// Counting one more in 64 bits keeps a count equal to a sum modulo 2^64, whether or not the bucket's own
/// count wrapped.
proof fn lemma_one_more(t: int, count: u64)
    requires
        t >= 0,
        count as int == t % wrap(),
    ensures
        count.wrapping_add(1) as int == (t + 1) % wrap(),
        (t + 1 - wrap()) % wrap() == (t + 1) % wrap(),
{
    vstd::arithmetic::div_mod::lemma_add_mod_noop(t, 1, wrap());
    vstd::arithmetic::div_mod::lemma_mod_sub_multiples_vanish(t + 1, wrap());
    if count as int + 1 < wrap() {
        vstd::arithmetic::div_mod::lemma_small_mod((count + 1) as nat, wrap() as nat);
    } else {
        vstd::arithmetic::div_mod::lemma_mod_self_0(wrap());
    }
    vstd::arithmetic::div_mod::lemma_small_mod(1, wrap() as nat);
}

/// A bucket index is at most the number of bounds.
proof fn lemma_bucket_of_bounded(bounds: Seq<u64>, value: u64)
    ensures
        bucket_of(bounds, value) <= bounds.len(),
    decreases bounds.len(),
{
    if bounds.len() > 0 {
        lemma_bucket_of_bounded(bounds.drop_first(), value);
    }
}

/// Recording into a series keeps its count the sum of its bucket counts, and keeps its number of buckets.
proof fn lemma_recorded_consistent(b: BucketsView, bounds: Seq<u64>, value: u64, sum: u64)
    requires
        consistent(b),
        b.counts.len() == bounds.len() + 1,
    ensures
        consistent(recorded(b, bounds, value, sum)),
        recorded(b, bounds, value, sum).counts.len() == b.counts.len(),
{
    lemma_bucket_of_bounded(bounds, value);
    let k = bucket_of(bounds, value) as int;
    let c = b.counts[k];
    lemma_total_update(b.counts, k, c.wrapping_add(1));
    lemma_total_nonnegative(b.counts);
    lemma_one_more(total(b.counts), b.count);
}

/// The first bucket whose bound `value` does not exceed is the one [`bucket_of`] names.
proof fn lemma_bucket_of(bounds: Seq<u64>, value: u64, k: int)
    requires
        0 <= k <= bounds.len(),
        forall|j: int| 0 <= j < k ==> !float_le(value, #[trigger] bounds[j]),
        k == bounds.len() || float_le(value, bounds[k]),
    ensures
        bucket_of(bounds, value) == k,
    decreases k,
{
    if k > 0 {
        let rest = bounds.drop_first();
        assert forall|j: int| 0 <= j < k - 1 implies !float_le(value, #[trigger] rest[j]) by {
            assert(rest[j] == bounds[j + 1]);
        }
        assert(!float_le(value, bounds[0]));
        if k < bounds.len() {
            assert(rest[k - 1] == bounds[k]);
        }
        lemma_bucket_of(rest, value, k - 1);
    }
}

/// The bucket `value` falls in, found by a linear scan: bucket lists are short, and the common first-or-last cases
/// take one or two comparisons.
pub fn bucket_index(bounds: &Vec<u64>, value: u64) -> (i: usize)
    ensures
        i == bucket_of(bounds@, value),
        i <= bounds@.len(),
{
    let mut i: usize = 0;
    while i < bounds.len() && !le_bits(value, bounds[i])
        invariant
            i <= bounds@.len(),
            forall|j: int| 0 <= j < i ==> !float_le(value, #[trigger] bounds@[j]),
        decreases bounds@.len() - i,
    {
        i += 1;
    }
    proof {
        lemma_bucket_of(bounds@, value, i as int);
    }
    i
}

/// One series of a histogram.
#[derive(Debug)]
pub struct Buckets {
    /// One count per bucket.
    counts: Vec<u64>,
    /// How many values were recorded.
    count: u64,
    /// Their running total's bit pattern.
    sum_bits: u64,
}

impl View for Buckets {
    type V = BucketsView;

    closed spec fn view(&self) -> BucketsView {
        BucketsView { counts: self.counts@, count: self.count, sum_bits: self.sum_bits }
    }
}

impl Buckets {
    /// An empty series for a histogram with `bound_count` bounds.
    fn new(bound_count: usize) -> (b: Buckets)
        requires
            bound_count < usize::MAX,
        ensures
            b@ == empty_buckets(bound_count as nat),
            consistent(b@),
    {
        let mut counts: Vec<u64> = Vec::new();
        let mut i: usize = 0;
        while i <= bound_count
            invariant
                i <= bound_count + 1,
                bound_count < usize::MAX,
                counts@ == Seq::new(i as nat, |j: int| 0u64),
            decreases bound_count + 1 - i,
        {
            counts.push(0);
            assert(counts@ =~= Seq::new((i + 1) as nat, |j: int| 0u64));
            i += 1;
        }
        proof {
            lemma_total_zeros((bound_count + 1) as nat);
        }
        Buckets { counts, count: 0, sum_bits: 0 }
    }

    /// Another series holding the same readings.
    fn copy(&self) -> (b: Buckets)
        ensures
            b@ == self@,
    {
        let mut counts: Vec<u64> = Vec::new();
        let mut i: usize = 0;
        while i < self.counts.len()
            invariant
                i <= self.counts@.len(),
                counts@ == self.counts@.subrange(0, i as int),
            decreases self.counts@.len() - i,
        {
            counts.push(self.counts[i]);
            assert(counts@ =~= self.counts@.subrange(0, i + 1));
            i += 1;
        }
        assert(counts@ =~= self.counts@);
        Buckets { counts, count: self.count, sum_bits: self.sum_bits }
    }

    /// Files `value` into its bucket, and folds it into the count and, through `accumulate`, the total. Returns the new
    /// total.
    fn record<F: Fn(u64, u64) -> u64>(&mut self, bounds: &Vec<u64>, value: u64, accumulate: &F) -> (sum: u64)
        requires
            old(self)@.counts.len() == bounds@.len() + 1,
            consistent(old(self)@),
            forall|a: u64, b: u64| accumulate.requires((a, b)),
        ensures
            accumulate.ensures((old(self)@.sum_bits, value), sum),
            final(self)@ == recorded(old(self)@, bounds@, value, sum),
            final(self)@.counts.len() == old(self)@.counts.len(),
            consistent(final(self)@),
    {
        let ghost before = self@;
        let k = bucket_index(bounds, value);
        let bumped = self.counts[k].wrapping_add(1);
        self.counts.set(k, bumped);
        self.count = self.count.wrapping_add(1);
        let sum = accumulate(self.sum_bits, value);
        self.sum_bits = sum;
        proof {
            lemma_recorded_consistent(before, bounds@, value, sum);
        }
        sum
    }

    /// The series as an exportable point under `tags`.
    fn snapshot(&self, tags: super::tags::Tags) -> (p: HistogramPoint)
        ensures
            point_view(p) == (tags_view(tags@), self@),
    {
        let b = self.copy();
        HistogramPoint { tags, count: b.count, sum_bits: b.sum_bits, bucket_counts: b.counts }
    }
}

/// A point's tag set and readings.
pub open spec fn point_view(p: HistogramPoint) -> (Seq<Pair>, BucketsView) {
    (tags_view(p.tags@), BucketsView { counts: p.bucket_counts@, count: p.count, sum_bits: p.sum_bits })
}

/// The readings of a histogram's points.
pub open spec fn histogram_view(points: Seq<HistogramPoint>) -> Seq<(Seq<Pair>, BucketsView)> {
    points.map_values(|p: HistogramPoint| point_view(p))
}

/// What a histogram holds: its name, its bounds and untagged series once either is first needed, one series per tag
/// set, and the overflow series once anything reached it.
pub struct HistogramView {
    /// The instrument name, as it appears on the wire.
    pub name: Seq<char>,
    /// The bucket bounds and the untagged series, fixed by [`Histogram::with_buckets`] or the first record.
    pub layout: Option<(Seq<u64>, BucketsView)>,
    /// One series per tag set, in the order the tag sets were first seen.
    pub series: Seq<(Seq<Pair>, BucketsView)>,
    /// Everything recorded after the series cap was reached.
    pub overflow: Option<BucketsView>,
}

/// The bounds and untagged series a record lands under: the histogram's own, or the default bounds with an empty
/// series when nothing fixed them yet.
pub open spec fn layout_for_record(v: HistogramView) -> (Seq<u64>, BucketsView) {
    match v.layout {
        Some(l) => l,
        None => (default_bounds(), empty_buckets(default_bounds().len())),
    }
}

/// A histogram after `value` was recorded into its untagged series, that series' total becoming `sum`.
pub open spec fn after_record(v: HistogramView, value: u64, sum: u64) -> HistogramView {
    let (bounds, untagged) = layout_for_record(v);
    HistogramView { layout: Some((bounds, recorded(untagged, bounds, value, sum))), ..v }
}

/// The series a record tagged `probe` lands in, as it was before: the one with that tag set, a new one while there
/// is room for it, and otherwise the overflow series.
pub open spec fn target_before(v: HistogramView, probe: Seq<Pair>) -> BucketsView {
    let bounds = layout_for_record(v).0;
    if series_holds(v.series, probe) {
        v.series[series_match(v.series, probe)].1
    } else if v.series.len() < MAX_SERIES {
        empty_buckets(bounds.len())
    } else {
        match v.overflow {
            Some(o) => o,
            None => empty_buckets(bounds.len()),
        }
    }
}

/// A histogram after `value` was recorded into the series tagged `probe`, that series' total becoming `sum`.
pub open spec fn after_tagged_record(v: HistogramView, probe: Seq<Pair>, value: u64, sum: u64) -> HistogramView {
    let layout = layout_for_record(v);
    let b = recorded(target_before(v, probe), layout.0, value, sum);
    if series_holds(v.series, probe) {
        let k = series_match(v.series, probe);
        HistogramView { layout: Some(layout), series: v.series.update(k, (v.series[k].0, b)), ..v }
    } else if v.series.len() < MAX_SERIES {
        HistogramView { layout: Some(layout), series: v.series.push((probe, b)), ..v }
    } else {
        HistogramView { layout: Some(layout), overflow: Some(b), ..v }
    }
}

/// The bounds a histogram reports: none until something fixed them.
pub open spec fn reported_bounds(v: HistogramView) -> Seq<u64> {
    match v.layout {
        Some((bounds, _)) => bounds,
        None => Seq::empty(),
    }
}

/// The points a histogram reports: none before its layout was fixed; then the untagged series if anything was
/// recorded into it, every tagged series in the order first seen, and the overflow series if anything reached it.
pub open spec fn histogram_points(v: HistogramView) -> Seq<(Seq<Pair>, BucketsView)> {
    match v.layout {
        None => Seq::empty(),
        Some((_, untagged)) => {
            let head: Seq<(Seq<Pair>, BucketsView)> = if untagged.count > 0 {
                seq![(Seq::<Pair>::empty(), untagged)]
            } else {
                Seq::empty()
            };
            let tail: Seq<(Seq<Pair>, BucketsView)> = match v.overflow {
                Some(o) => seq![(overflow_pairs(), o)],
                None => Seq::empty(),
            };
            head + v.series + tail
        },
    }
}

/// The bounds and the untagged series.
#[derive(Debug)]
struct Layout {
    /// Bucket upper bounds, ascending.
    bounds: Vec<u64>,
    /// The untagged series.
    untagged: Buckets,
}

/// A distribution of recorded values over fixed buckets.
#[derive(Debug)]
pub struct Histogram {
    /// The instrument name, as it appears on the wire.
    name: String,
    /// Set once, by `with_buckets` or by the first record, whichever comes first: the bucket counters are sized from
    /// the bounds, so changing them later would invalidate everything recorded.
    layout: Option<Layout>,
    /// One series per tag set seen.
    tagged: TagMap<Buckets>,
    /// Everything that arrived after the per-instrument series cap was reached.
    overflow: Option<Buckets>,
}

impl View for Histogram {
    type V = HistogramView;

    closed spec fn view(&self) -> HistogramView {
        HistogramView {
            name: self.name@,
            layout: match self.layout {
                Some(l) => Some((l.bounds@, l.untagged@)),
                None => None,
            },
            series: self.tagged.series().map_values(|e: (Seq<Pair>, Buckets)| (e.0, e.1@)),
            overflow: match self.overflow {
                Some(o) => Some(o@),
                None => None,
            },
        }
    }
}

/// Creates a histogram named `name`, which takes the default bounds unless [`Histogram::with_buckets`] fixes others
/// before the first record.
pub fn histogram(name: &str) -> (h: Histogram)
    ensures
        h.wf(),
        h@ == (HistogramView { name: name@, layout: None, series: Seq::empty(), overflow: None }),
{
    let h = Histogram { name: name.to_owned(), layout: None, tagged: TagMap::new(), overflow: None };
    assert(h@.series =~= Seq::<(Seq<Pair>, BucketsView)>::empty());
    h
}

impl Histogram {
    /// Every series has one count per bucket of the layout; nothing is recorded before the layout is fixed; and
    /// the tagged series are within the cap, each tag set once.
    pub closed spec fn wf(self) -> bool {
        &&& self.tagged.wf()
        &&& match self.layout {
            None => self.tagged.series().len() == 0 && self.overflow is None,
            Some(l) => {
                &&& l.bounds@.len() < usize::MAX
                &&& sorted_by_total_order(l.bounds@)
                &&& l.untagged@.counts.len() == l.bounds@.len() + 1
                &&& consistent(l.untagged@)
                &&& forall|i: int|
                    0 <= i < self.tagged.series().len() ==> (#[trigger] self.tagged.series()[i]).1@.counts.len()
                        == l.bounds@.len() + 1 && consistent(self.tagged.series()[i].1@)
                &&& self.overflow matches Some(o) ==> o@.counts.len() == l.bounds@.len() + 1 && consistent(o@)
            },
        }
    }

    /// A well-formed histogram tracks at most [`MAX_SERIES`] tag sets.
    pub proof fn lemma_wf(self)
        requires
            self.wf(),
        ensures
            self@.series.len() <= MAX_SERIES,
    {
    }

    /// Every point a histogram reports has exactly one more bucket than the histogram has bounds — the extra bucket
    /// catches everything above the last bound — and the bounds it reports ascend.
    pub proof fn one_more_bucket_than_bounds(self)
        requires
            self.wf(),
        ensures
            sorted_by_total_order(reported_bounds(self@)),
            forall|i: int|
                0 <= i < histogram_points(self@).len() ==> (#[trigger] histogram_points(self@)[i]).1.counts.len()
                    == reported_bounds(self@).len() + 1,
    {
        let v = self@;
        match v.layout {
            None => {},
            Some((bounds, untagged)) => {
                let head: Seq<(Seq<Pair>, BucketsView)> = if untagged.count > 0 {
                    seq![(Seq::<Pair>::empty(), untagged)]
                } else {
                    Seq::empty()
                };
                let tail: Seq<(Seq<Pair>, BucketsView)> = match v.overflow {
                    Some(o) => seq![(overflow_pairs(), o)],
                    None => Seq::empty(),
                };
                assert(histogram_points(v) == head + v.series + tail);
                assert forall|i: int| 0 <= i < v.series.len() implies (#[trigger] v.series[i]).1.counts.len()
                    == bounds.len() + 1 by {
                    assert(v.series[i].1 == self.tagged.series()[i].1@);
                }
            },
        }
    }

    /// Every point a histogram reports counts exactly the values its buckets count: its count is the sum of its
    /// bucket counts, as far as a 64-bit counter holds it.
    pub proof fn every_count_is_the_sum_of_its_buckets(self)
        requires
            self.wf(),
        ensures
            forall|i: int|
                0 <= i < histogram_points(self@).len() ==> consistent(#[trigger] histogram_points(self@)[i].1),
    {
        let v = self@;
        match v.layout {
            None => {},
            Some((bounds, untagged)) => {
                let head: Seq<(Seq<Pair>, BucketsView)> = if untagged.count > 0 {
                    seq![(Seq::<Pair>::empty(), untagged)]
                } else {
                    Seq::empty()
                };
                let tail: Seq<(Seq<Pair>, BucketsView)> = match v.overflow {
                    Some(o) => seq![(overflow_pairs(), o)],
                    None => Seq::empty(),
                };
                assert(histogram_points(v) == head + v.series + tail);
                assert forall|i: int| 0 <= i < v.series.len() implies consistent(#[trigger] v.series[i].1) by {
                    assert(v.series[i].1 == self.tagged.series()[i].1@);
                }
            },
        }
    }

    /// Fixes the bucket upper bounds, sorted as `f64::total_cmp` orders them, so they need not be given in order.
    ///
    /// Only the first call has any effect, and a call after the first record has none: the bucket counters are sized
    /// from the bounds, so changing them later would invalidate everything recorded so far.
    pub fn with_buckets(self, bounds: &[u64]) -> (h: Histogram)
        requires
            self.wf(),
            bounds@.len() < usize::MAX,
        ensures
            h.wf(),
            self@.layout is Some ==> h@ == self@,
            self@.layout is None ==> {
                &&& h@.layout matches Some((b, u)) && sorted_by_total_order(b) && b.to_multiset()
                    == bounds@.to_multiset() && u == empty_buckets(bounds@.len())
                &&& h@.name == self@.name
                &&& h@.series == self@.series
                &&& h@.overflow == self@.overflow
            },
    {
        let mut h = self;
        if h.layout.is_none() {
            let sorted = sort_by_total_order(bounds);
            proof {
                vstd::seq_lib::to_multiset_len(sorted@);
                vstd::seq_lib::to_multiset_len(bounds@);
            }
            let untagged = Buckets::new(sorted.len());
            h.layout = Some(Layout { bounds: sorted, untagged });
        }
        h
    }

    /// Fixes the default layout if nothing fixed one yet.
    fn ensure_layout(&mut self)
        requires
            old(self).wf(),
        ensures
            final(self).wf(),
            final(self)@ == (HistogramView { layout: Some(layout_for_record(old(self)@)), ..old(self)@ }),
    {
        if self.layout.is_none() {
            let bounds = default_bounds_vec();
            let untagged = Buckets::new(bounds.len());
            self.layout = Some(Layout { bounds, untagged });
        }
    }

    /// Files the value whose bit pattern is `value` into the untagged series, its total updated by `accumulate`.
    pub fn record<F: Fn(u64, u64) -> u64>(&mut self, value: u64, accumulate: &F)
        requires
            old(self).wf(),
            forall|a: u64, b: u64| accumulate.requires((a, b)),
        ensures
            final(self).wf(),
            exists|sum: u64|
                accumulate.ensures((layout_for_record(old(self)@).1.sum_bits, value), sum) && final(self)@ == after_record(
                    old(self)@,
                    value,
                    sum,
                ),
    {
        self.ensure_layout();
        match self.layout.take() {
            Some(mut layout) => {
                let sum = layout.untagged.record(&layout.bounds, value, accumulate);
                self.layout = Some(layout);
                assert(self@ == after_record(old(self)@, value, sum));
            },
            None => {
                assert(false);
            },
        }
    }

    /// Files the value whose bit pattern is `value` into the series identified by `tags`, matched and capped as
    /// [`Counter::add_with_tags`](super::Counter::add_with_tags) describes: past the cap it lands in the overflow
    /// series instead.
    pub fn record_with_tags<F: Fn(u64, u64) -> u64>(&mut self, value: u64, tags: &[(&str, &str)], accumulate: &F)
        requires
            old(self).wf(),
            forall|a: u64, b: u64| accumulate.requires((a, b)),
        ensures
            final(self).wf(),
            exists|sum: u64|
                accumulate.ensures((target_before(old(self)@, probe_view(tags@)).sum_bits, value), sum) && final(self)@
                    == after_tagged_record(old(self)@, probe_view(tags@), value, sum),
    {
        self.ensure_layout();
        let ghost v = old(self)@;
        let ghost probe = probe_view(tags@);
        let ghost before = self.tagged.series();
        let layout = match self.layout.take() {
            Some(layout) => layout,
            None => {
                return;
            },
        };
        let bound_count = layout.bounds.len();
        proof {
            if series_holds(v.series, probe) {
                let k = series_match(v.series, probe);
                assert(v.series[k].0 == before[k].0);
                assert(self.tagged.holds(probe));
            }
            if self.tagged.holds(probe) {
                let k = choose|k: int| 0 <= k < before.len() && same_tag_set(#[trigger] before[k].0, probe);
                assert(v.series[k].0 == before[k].0);
                assert(series_holds(v.series, probe));
            }
        }
        match self.tagged.with(tags, Buckets::new(bound_count)) {
            Some(i) => {
                let mut series = self.tagged.get(i).1.copy();
                let sum = series.record(&layout.bounds, value, accumulate);
                self.tagged.set_value(i, series);
                self.layout = Some(layout);
                proof {
                    if series_holds(v.series, probe) {
                        let k = series_match(v.series, probe);
                        assert(v.series[k] == (before[k].0, before[k].1@));
                        assert(same_tag_set(before[k].0, probe));
                        lemma_one_match(before, probe, i as int, k);
                        assert(self@.series =~= v.series.update(k, (v.series[k].0, recorded(v.series[k].1, layout.bounds@, value, sum))));
                    } else {
                        assert(self@.series =~= v.series.push((probe, recorded(empty_buckets(bound_count as nat), layout.bounds@, value, sum))));
                    }
                    assert(self@ == after_tagged_record(v, probe, value, sum));
                }
            },
            None => {
                let mut overflow = match self.overflow.take() {
                    Some(o) => o,
                    None => Buckets::new(bound_count),
                };
                let sum = overflow.record(&layout.bounds, value, accumulate);
                self.overflow = Some(overflow);
                self.layout = Some(layout);
                assert(self@ == after_tagged_record(v, probe, value, sum));
            },
        }
    }

    /// The histogram's readings as of now: its bounds, and the points described by [`histogram_points`].
    pub fn snapshot(&self) -> (s: MetricSnapshot)
        requires
            self.wf(),
        ensures
            s.name@ == self@.name,
            s.data matches MetricData::Histogram { bounds_bits, points } && bounds_bits@ == reported_bounds(self@)
                && histogram_view(points@) == histogram_points(self@),
    {
        let mut points: Vec<HistogramPoint> = Vec::new();
        let layout = match &self.layout {
            None => {
                assert(histogram_view(points@) =~= histogram_points(self@));
                return MetricSnapshot {
                    name: self.name.clone(),
                    data: MetricData::Histogram { bounds_bits: Vec::new(), points },
                };
            },
            Some(layout) => layout,
        };
        if layout.untagged.count > 0 {
            points.push(layout.untagged.snapshot(no_tags()));
        }
        let ghost head = histogram_view(points@);
        let n = self.tagged.len();
        let mut i: usize = 0;
        while i < n
            invariant
                self.wf(),
                n == self@.series.len(),
                i <= n,
                histogram_view(points@) == head + self@.series.subrange(0, i as int),
            decreases n - i,
        {
            let (tags, series) = self.tagged.get(i);
            let ghost before = points@;
            points.push(series.snapshot(copy_tags(tags)));
            assert(histogram_view(points@) =~= histogram_view(before).push(self@.series[i as int]));
            assert(self@.series.subrange(0, i + 1) =~= self@.series.subrange(0, i as int).push(
                self@.series[i as int],
            ));
            i += 1;
        }
        assert(self@.series.subrange(0, n as int) =~= self@.series);
        match &self.overflow {
            Some(o) => {
                let ghost before = points@;
                points.push(o.snapshot(overflow_tags()));
                assert(histogram_view(points@) =~= histogram_view(before).push((overflow_pairs(), o@)));
            },
            None => {},
        }
        let bounds_bits = layout.bounds.clone();
        assert(bounds_bits@ =~= layout.bounds@);
        proof {
            let v = self@;
            if layout.untagged@.count > 0 {
                assert(head =~= seq![(Seq::<Pair>::empty(), layout.untagged@)]);
            } else {
                assert(head =~= Seq::<(Seq<Pair>, BucketsView)>::empty());
            }
            assert(histogram_view(points@) =~= histogram_points(v));
        }
        MetricSnapshot { name: self.name.clone(), data: MetricData::Histogram { bounds_bits, points } }
    }
}

} // verus!
