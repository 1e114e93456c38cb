//! The readings an instrument hands the exporter.

use vstd::prelude::*;

use super::tags::{Pair, Tags, tags_view};

verus! {

/// One series of a counter.
#[derive(Debug)]
pub struct SumPoint {
    /// The tags identifying this series. Empty for the untagged one.
    pub tags: Tags,
    /// The running total since the process started.
    pub value: u64,
}

/// One series of a gauge.
#[derive(Debug)]
pub struct GaugePoint {
    /// The tags identifying this series. Empty for the untagged one.
    pub tags: Tags,
    /// The most recently set value, as the bit pattern of an `f64`.
    pub bits: u64,
}

/// One series of a histogram.
#[derive(Debug)]
pub struct HistogramPoint {
    /// The tags identifying this series. Empty for the untagged one.
    pub tags: Tags,
    /// How many values were recorded.
    pub count: u64,
    /// Their total, as the bit pattern of an `f64`.
    pub sum_bits: u64,
    /// One count per bucket, one longer than the bounds: the last catches everything above the final bound.
    pub bucket_counts: Vec<u64>,
}

/// The data points of one instrument, shaped by what kind of instrument produced them.
#[derive(Debug)]
pub enum MetricData {
    /// A monotonically increasing total.
    Sum(Vec<SumPoint>),
    /// A value that moves in both directions.
    Gauge(Vec<GaugePoint>),
    /// A distribution over fixed buckets: the bucket upper bounds, ascending, as `f64` bit patterns, and one point
    /// per series.
    Histogram {
        /// The bucket upper bounds, as `f64` bit patterns.
        bounds_bits: Vec<u64>,
        /// One point per series.
        points: Vec<HistogramPoint>,
    },
}

/// One instrument's readings at a point in time.
#[derive(Debug)]
pub struct MetricSnapshot {
    /// The instrument name, as given to [`counter`](super::counter) and [`gauge`](super::gauge).
    pub name: String,
    /// Its data points, one per tag set.
    pub data: MetricData,
}

/// The readings of a counter's points, as text and totals.
pub open spec fn sum_view(points: Seq<SumPoint>) -> Seq<(Seq<Pair>, u64)> {
    points.map_values(|p: SumPoint| (tags_view(p.tags@), p.value))
}

/// The readings of a gauge's points, as text and bit patterns.
pub open spec fn gauge_view(points: Seq<GaugePoint>) -> Seq<(Seq<Pair>, u64)> {
    points.map_values(|p: GaugePoint| (tags_view(p.tags@), p.bits))
}

} // verus!
