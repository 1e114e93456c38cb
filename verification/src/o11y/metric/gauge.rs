//! Gauges: values that move in both directions, such as a queue depth or a cache size.
//!
//! A gauge stores the bit pattern of an `f64` (as `f64::to_bits` gives it), so it holds any value exactly while
//! doing no arithmetic on it; the application converts at the edge.

use vstd::prelude::*;

use super::registry::{GaugePoint, MetricData, MetricSnapshot, gauge_view};
use super::tags::{
    MAX_SERIES, Pair, TagMap, copy_tags, lemma_one_match, no_tags, overflow_pairs, overflow_tags, probe_view,
    series_holds, series_match,
};

verus! {

/// What a gauge holds: its name, the untagged value, one value per tag set, and the overflow value.
pub struct GaugeView {
    /// The instrument name, as it appears on the wire.
    pub name: Seq<char>,
    /// The untagged value's bit pattern.
    pub untagged: u64,
    /// Whether the untagged series has ever been set.
    pub untagged_set: bool,
    /// One value per tag set, in the order the tag sets were first seen.
    pub series: Seq<(Seq<Pair>, u64)>,
    /// The last value that arrived after the series cap was reached.
    pub overflow: u64,
    /// Whether anything ever overflowed.
    pub overflow_set: bool,
}

/// The series after the one tagged `probe` is set to `bits`: an existing series takes the new value, a new tag set
/// starts a series of its own while there is room, and past the cap the series stay as they were.
pub open spec fn series_after_set(series: Seq<(Seq<Pair>, u64)>, probe: Seq<Pair>, bits: u64) -> Seq<
    (Seq<Pair>, u64),
> {
    if series_holds(series, probe) {
        let k = series_match(series, probe);
        series.update(k, (series[k].0, bits))
    } else if series.len() < MAX_SERIES {
        series.push((probe, bits))
    } else {
        series
    }
}

/// Whether setting the series tagged `probe` lands in the overflow series: the tag set is new and the cap has been
/// reached.
pub open spec fn set_overflows(series: Seq<(Seq<Pair>, u64)>, probe: Seq<Pair>) -> bool {
    !series_holds(series, probe) && series.len() >= MAX_SERIES
}

/// The points a gauge reports: the untagged value if it was ever set, then every tagged series in the order first
/// seen, then the overflow series if anything reached it. A gauge never set reports no point at all, rather than a
/// misleading `0`.
pub open spec fn gauge_points(v: GaugeView) -> Seq<(Seq<Pair>, u64)> {
    let head: Seq<(Seq<Pair>, u64)> = if v.untagged_set {
        seq![(Seq::<Pair>::empty(), v.untagged)]
    } else {
        Seq::empty()
    };
    let tail: Seq<(Seq<Pair>, u64)> = if v.overflow_set {
        seq![(overflow_pairs(), v.overflow)]
    } else {
        Seq::empty()
    };
    head + v.series + tail
}

/// A value that moves in both directions, such as a queue depth or a cache size.
#[derive(Debug)]
pub struct Gauge {
    /// The instrument name, as it appears on the wire.
    name: String,
    /// The untagged series' bit pattern.
    untagged: u64,
    /// Whether the untagged series has ever been set.
    untagged_set: bool,
    /// One series per tag set seen.
    tagged: TagMap<u64>,
    /// The last value that arrived after the per-instrument series cap was reached.
    overflow: u64,
    /// Whether anything ever overflowed.
    overflow_set: bool,
}

impl View for Gauge {
    type V = GaugeView;

    closed spec fn view(&self) -> GaugeView {
        GaugeView {
            name: self.name@,
            untagged: self.untagged,
            untagged_set: self.untagged_set,
            series: self.tagged.series(),
            overflow: self.overflow,
            overflow_set: self.overflow_set,
        }
    }
}

/// Creates a gauge named `name`, with no series set.
pub fn gauge(name: &str) -> (g: Gauge)
    ensures
        g.wf(),
        g@ == (GaugeView {
            name: name@,
            untagged: 0,
            untagged_set: false,
            series: Seq::empty(),
            overflow: 0,
            overflow_set: false,
        }),
{
    Gauge {
        name: name.to_owned(),
        untagged: 0,
        untagged_set: false,
        tagged: TagMap::new(),
        overflow: 0,
        overflow_set: false,
    }
}

impl Gauge {
    /// The tagged series are within the cap and hold each tag set at most once.
    pub closed spec fn wf(self) -> bool {
        self.tagged.wf()
    }

    /// A well-formed gauge tracks at most [`MAX_SERIES`] tag sets, each once.
    pub proof fn lemma_wf(self)
        requires
            self.wf(),
        ensures
            self@.series.len() <= MAX_SERIES,
            super::tags::distinct_series(self@.series),
    {
    }

    /// Replaces the untagged series' value with the `f64` whose bit pattern is `bits`.
    pub fn set_bits(&mut self, bits: u64)
        requires
            old(self).wf(),
        ensures
            final(self).wf(),
            final(self)@ == (GaugeView { untagged: bits, untagged_set: true, ..old(self)@ }),
    {
        self.untagged = bits;
        self.untagged_set = true;
    }

    /// Replaces the value of the series identified by `tags`, matched and capped as
    /// [`Counter::add_with_tags`](super::Counter::add_with_tags) describes: past the cap the value lands in the
    /// overflow series instead.
    pub fn set_bits_with_tags(&mut self, bits: u64, tags: &[(&str, &str)])
        requires
            old(self).wf(),
        ensures
            final(self).wf(),
            final(self)@ == (GaugeView {
                series: series_after_set(old(self)@.series, probe_view(tags@), bits),
                overflow: if set_overflows(old(self)@.series, probe_view(tags@)) {
                    bits
                } else {
                    old(self)@.overflow
                },
                overflow_set: old(self)@.overflow_set || set_overflows(old(self)@.series, probe_view(tags@)),
                ..old(self)@
            }),
    {
        let ghost before = self.tagged.series();
        let ghost probe = probe_view(tags@);
        match self.tagged.with(tags, bits) {
            Some(i) => {
                let ghost mid = self.tagged.series();
                self.tagged.set_value(i, bits);
                proof {
                    if series_holds(before, probe) {
                        let k = series_match(before, probe);
                        lemma_one_match(before, probe, i as int, k);
                    } else {
                        assert(self.tagged.series() =~= before.push((probe, bits)));
                    }
                }
            },
            None => {
                self.overflow = bits;
                self.overflow_set = true;
            },
        }
    }

    /// The gauge's readings as of now: the points described by [`gauge_points`], under its name.
    pub fn snapshot(&self) -> (s: MetricSnapshot)
        requires
            self.wf(),
        ensures
            s.name@ == self@.name,
            s.data matches MetricData::Gauge(points) && gauge_view(points@) == gauge_points(self@),
    {
        let mut points: Vec<GaugePoint> = Vec::new();
        if self.untagged_set {
            points.push(GaugePoint { tags: no_tags(), bits: self.untagged });
        }
        let ghost head = gauge_view(points@);
        let n = self.tagged.len();
        let mut i: usize = 0;
        while i < n
            invariant
                self.wf(),
                n == self@.series.len(),
                i <= n,
                gauge_view(points@) == head + self@.series.subrange(0, i as int),
            decreases n - i,
        {
            let (tags, bits) = self.tagged.get(i);
            let ghost before = points@;
            points.push(GaugePoint { tags: copy_tags(tags), bits: *bits });
            assert(gauge_view(points@) =~= gauge_view(before).push(self@.series[i as int]));
            assert(self@.series.subrange(0, i + 1) =~= self@.series.subrange(0, i as int).push(
                self@.series[i as int],
            ));
            i += 1;
        }
        assert(self@.series.subrange(0, n as int) =~= self@.series);
        if self.overflow_set {
            let ghost before = points@;
            points.push(GaugePoint { tags: overflow_tags(), bits: self.overflow });
            assert(gauge_view(points@) =~= gauge_view(before).push((overflow_pairs(), self.overflow)));
        }
        proof {
            let v = self@;
            if v.untagged_set {
                assert(head =~= seq![(Seq::<Pair>::empty(), v.untagged)]);
            } else {
                assert(head =~= Seq::<(Seq<Pair>, u64)>::empty());
            }
            assert(gauge_view(points@) =~= gauge_points(v));
        }
        MetricSnapshot { name: self.name.clone(), data: MetricData::Gauge(points) }
    }
}

} // verus!
