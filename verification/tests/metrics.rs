use rust_sak::o11y::json::Json;
use rust_sak::o11y::metric::registry::{HistogramPoint, MetricData};
use rust_sak::o11y::metric::Histogram;
use rust_sak::o11y::otlp::metrics;
use rust_sak::o11y::metric::tags::{MASK_BITS, MAX_SERIES, TagMap, Tags, owned, same_tags};
use rust_sak::o11y::metric::{counter, gauge, histogram};

fn stored(pairs: &[(&str, &str)]) -> Tags {
    owned(pairs)
}

// --- counters ---

#[test]
fn value_reads_the_untagged_series_through_empty_tags() {
    let mut counter = counter("read_untagged");

    counter.increment(2);
    counter.increment(3);
    counter.add_with_tags(7, &[("region", "eu")]);

    assert_eq!(counter.value(&[]), 5);
}

#[test]
fn value_matches_a_tag_set_in_any_order() {
    let mut counter = counter("read_order");

    counter.add_with_tags(4, &[("a", "1"), ("b", "2")]);

    assert_eq!(counter.value(&[("a", "1"), ("b", "2")]), 4);
    assert_eq!(counter.value(&[("b", "2"), ("a", "1")]), 4);
}

#[test]
fn a_series_never_written_reads_zero() {
    let mut counter = counter("read_unwritten");

    counter.add_with_tags(1, &[("a", "1")]);

    assert_eq!(counter.value(&[]), 0);
    assert_eq!(counter.value(&[("a", "2")]), 0);
}

#[test]
fn a_tag_set_folded_into_overflow_reads_as_never_written() {
    let mut counter = counter("read_overflow");

    for index in 0..MAX_SERIES {
        counter.add_with_tags(1, &[("index", &index.to_string())]);
    }
    counter.add_with_tags(9, &[("index", "past_the_cap")]);

    assert_eq!(counter.value(&[("index", "0")]), 1);
    assert_eq!(counter.value(&[("index", "past_the_cap")]), 0);
}

#[test]
fn the_series_cap_keeps_the_total_in_a_single_marked_series() {
    let mut counter = counter("capped");

    for index in 0..MAX_SERIES + 3 {
        counter.add_with_tags(2, &[("index", &index.to_string())]);
    }

    let snapshot = counter.snapshot();
    let MetricData::Sum(points) = snapshot.data else { panic!("a counter reports a sum") };

    assert_eq!(points.len(), MAX_SERIES + 1);
    let overflow = points.last().unwrap();
    assert_eq!(overflow.tags, vec![("o11y.series_overflow".to_string(), "true".to_string())]);
    assert_eq!(overflow.value, 6, "the three refused series still count towards the total");
    let total: u64 = points.iter().map(|point| point.value).sum();
    assert_eq!(total, 2 * (MAX_SERIES as u64 + 3));
}

#[test]
fn a_counter_used_only_with_tags_reports_no_untagged_point() {
    let mut counter = counter("tagged_only");
    counter.add_with_tags(1, &[("a", "1")]);

    let snapshot = counter.snapshot();
    assert_eq!(snapshot.name, "tagged_only");
    let MetricData::Sum(points) = snapshot.data else { panic!("a counter reports a sum") };

    assert_eq!(points.len(), 1);
    assert_eq!(points[0].tags, vec![("a".to_string(), "1".to_string())]);
}

#[test]
fn a_counter_accumulates_across_calls_and_reports_untagged_first() {
    let mut counter = counter("accumulates");
    counter.add_with_tags(1, &[("a", "1")]);
    counter.increment(1);
    counter.increment(2);
    counter.add_with_tags(5, &[("a", "1")]);

    let MetricData::Sum(points) = counter.snapshot().data else { panic!("a counter reports a sum") };

    assert_eq!(points.len(), 2);
    assert!(points[0].tags.is_empty());
    assert_eq!(points[0].value, 3);
    assert_eq!(points[1].value, 6);
}

#[test]
fn tag_order_does_not_split_one_series_into_two() {
    let mut counter = counter("tagged");
    counter.add_with_tags(1, &[("region", "eu-west-1"), ("tier", "gold")]);
    counter.add_with_tags(1, &[("tier", "gold"), ("region", "eu-west-1")]);

    let snapshot = counter.snapshot();
    assert_eq!(snapshot.name, "tagged");
    let MetricData::Sum(points) = &snapshot.data else { panic!("expected a sum") };
    let tagged: Vec<_> = points.iter().filter(|point| !point.tags.is_empty()).collect();

    assert_eq!(tagged.len(), 1, "the same tags in a different order are the same series");
    assert_eq!(tagged[0].value, 2);
}

#[test]
fn a_counter_wraps_at_the_top_of_its_range() {
    let mut counter = counter("wraps");
    counter.increment(u64::MAX);
    counter.increment(2);

    assert_eq!(counter.value(&[]), 1);
}

#[test]
fn an_empty_tag_set_is_a_series_of_its_own() {
    let mut counter = counter("empty_tags");
    counter.add_with_tags(4, &[]);

    assert_eq!(counter.value(&[]), 0, "`&[]` reads the series `increment` adds to");
    let MetricData::Sum(points) = counter.snapshot().data else { panic!("a counter reports a sum") };
    assert_eq!(points.len(), 1);
    assert_eq!(points[0].value, 4);
}

// --- gauges ---

#[test]
fn an_untouched_gauge_reports_no_data_point() {
    let gauge = gauge("untouched");

    let MetricData::Gauge(points) = gauge.snapshot().data else { panic!("a gauge reports a gauge") };
    assert!(points.is_empty());
}

#[test]
fn a_gauge_reports_the_value_it_was_last_set_to() {
    let mut gauge = gauge("queue_depth");
    gauge.set_bits(3.0f64.to_bits());
    gauge.set_bits(12.0f64.to_bits());
    gauge.set_bits_with_tags(0.5f64.to_bits(), &[("queue", "a")]);
    gauge.set_bits_with_tags(1.5f64.to_bits(), &[("queue", "a")]);

    let MetricData::Gauge(points) = gauge.snapshot().data else { panic!("a gauge reports a gauge") };

    assert_eq!(points.len(), 2);
    assert_eq!(f64::from_bits(points[0].bits), 12.0);
    assert_eq!(f64::from_bits(points[1].bits), 1.5);
}

#[test]
fn a_gauge_past_the_cap_keeps_the_last_overflowing_value() {
    let mut gauge = gauge("capped_gauge");
    for index in 0..MAX_SERIES {
        gauge.set_bits_with_tags(1.0f64.to_bits(), &[("index", &index.to_string())]);
    }
    gauge.set_bits_with_tags(7.0f64.to_bits(), &[("index", "late")]);
    gauge.set_bits_with_tags(9.0f64.to_bits(), &[("index", "later")]);

    let MetricData::Gauge(points) = gauge.snapshot().data else { panic!("a gauge reports a gauge") };
    assert_eq!(points.len(), MAX_SERIES + 1);
    assert_eq!(f64::from_bits(points[MAX_SERIES].bits), 9.0);
}

// --- tag sets ---

#[test]
fn a_set_equals_itself_in_any_order() {
    let set = stored(&[("a", "1"), ("b", "2")]);

    assert!(same_tags(&set, &[("a", "1"), ("b", "2")]));
    assert!(same_tags(&set, &[("b", "2"), ("a", "1")]));
}

#[test]
fn a_repeated_probe_pair_does_not_match_a_set_of_distinct_pairs() {
    // Both probe pairs are found in `stored`, but they are both found in the *same* one.
    let set = stored(&[("a", "1"), ("b", "2")]);

    assert!(!same_tags(&set, &[("a", "1"), ("a", "1")]));
}

#[test]
fn a_repeated_stored_pair_does_not_match_a_set_of_distinct_pairs() {
    let set = stored(&[("a", "1"), ("a", "1")]);

    assert!(!same_tags(&set, &[("a", "1"), ("b", "2")]));
    assert!(same_tags(&set, &[("a", "1"), ("a", "1")]));
}

#[test]
fn sets_of_different_lengths_never_match() {
    let set = stored(&[("a", "1")]);

    assert!(!same_tags(&set, &[("a", "1"), ("b", "2")]));
}

#[test]
fn a_probe_wider_than_the_mask_is_refused_rather_than_guessed_at() {
    let pairs: Vec<(String, String)> = (0..=MASK_BITS).map(|i| (i.to_string(), i.to_string())).collect();
    let borrowed: Vec<(&str, &str)> = pairs.iter().map(|(k, v)| (k.as_str(), v.as_str())).collect();
    let set = stored(&borrowed);

    assert!(
        !same_tags(&set, &borrowed),
        "past the mask width the answer is conservatively false"
    );
}

#[test]
fn a_tag_map_creates_a_series_once_and_refuses_past_the_cap() {
    let mut map: TagMap<u64> = TagMap::new();

    assert_eq!(map.with(&[("a", "1")], 10), Some(0));
    assert_eq!(map.with(&[("a", "1")], 20), Some(0));
    assert_eq!(map.len(), 1);
    assert_eq!(*map.get(0).1, 10, "an existing series keeps its value");

    for index in 1..MAX_SERIES {
        assert!(map.with(&[("i", &index.to_string())], 0).is_some());
    }
    assert_eq!(map.with(&[("new", "set")], 0), None);
    assert_eq!(map.len(), MAX_SERIES);
}

// --- histograms ---

/// The float addition a histogram's running totals are kept with.
fn add_f64(sum: u64, value: u64) -> u64 {
    (f64::from_bits(sum) + f64::from_bits(value)).to_bits()
}

/// The bit patterns of `values`.
fn bits(values: &[f64]) -> Vec<u64> {
    values.iter().map(|v| v.to_bits()).collect()
}

/// The bounds and the points of a histogram's snapshot.
fn histogram_data(h: &Histogram) -> (Vec<u64>, Vec<HistogramPoint>) {
    match h.snapshot().data {
        MetricData::Histogram { bounds_bits, points } => (bounds_bits, points),
        _ => panic!("expected a histogram"),
    }
}

/// The member `key` of a JSON object.
fn member<'a>(json: &'a Json, key: &str) -> &'a Json {
    match json {
        Json::Object(members) => &members.iter().find(|(name, _)| name == key).unwrap_or_else(|| panic!("no {key}")).1,
        other => panic!("{other:?} is not an object"),
    }
}

/// Element `index` of a JSON array.
fn at(json: &Json, index: usize) -> &Json {
    match json {
        Json::Array(items) => &items[index],
        other => panic!("{other:?} is not an array"),
    }
}

/// The length of a JSON array.
fn json_len(json: &Json) -> usize {
    match json {
        Json::Array(items) => items.len(),
        other => panic!("{other:?} is not an array"),
    }
}

#[test]
fn a_histogram_has_exactly_one_more_bucket_than_it_has_bounds() {
    let mut histogram = histogram("durations").with_buckets(&bits(&[1.0, 2.0]));
    histogram.record(1.5f64.to_bits(), &add_f64);

    let payload = metrics(&vec![histogram.snapshot()], &Vec::new(), &Vec::new(), 0, 1);
    let metric = at(member(at(member(at(member(&payload, "resourceMetrics"), 0), "scopeMetrics"), 0), "metrics"), 0);
    let point = at(member(member(metric, "histogram"), "dataPoints"), 0);

    let bounds = json_len(member(point, "explicitBounds"));
    let buckets = json_len(member(point, "bucketCounts"));

    assert_eq!(buckets, bounds + 1, "the extra bucket catches everything above the last bound");
    assert!(
        matches!(at(member(point, "bucketCounts"), 1), Json::String(count) if count == "1"),
        "1.5 falls into the bucket bounded by 2.0"
    );
}

#[test]
fn a_histogram_files_values_into_the_bucket_they_fall_in() {
    let mut histogram = histogram("values").with_buckets(&bits(&[10.0, 100.0]));
    histogram.record(5.0f64.to_bits(), &add_f64);
    histogram.record(50.0f64.to_bits(), &add_f64);
    histogram.record(500.0f64.to_bits(), &add_f64);

    let (_, points) = histogram_data(&histogram);

    assert_eq!(points[0].bucket_counts, vec![1, 1, 1]);
    assert_eq!(points[0].count, 3);
    assert_eq!(f64::from_bits(points[0].sum_bits), 555.0);
}

#[test]
fn with_buckets_given_out_of_order_bounds_sorts_them() {
    let mut histogram = histogram("unsorted").with_buckets(&bits(&[100.0, 10.0]));
    histogram.record(50.0f64.to_bits(), &add_f64);

    let (bounds, points) = histogram_data(&histogram);

    assert_eq!(bounds, bits(&[10.0, 100.0]));
    assert_eq!(points[0].bucket_counts, vec![0, 1, 0]);
}

#[test]
fn a_histogram_nothing_recorded_into_reports_no_bounds_and_no_points() {
    let (bounds, points) = histogram_data(&histogram("idle"));

    assert!(bounds.is_empty());
    assert!(points.is_empty());
}

#[test]
fn a_histogram_without_bounds_takes_the_default_ones_on_its_first_record() {
    let mut histogram = histogram("defaults");
    histogram.record(7.0f64.to_bits(), &add_f64);

    let (bounds, points) = histogram_data(&histogram);

    assert_eq!(
        bounds,
        bits(&[0.0, 5.0, 10.0, 25.0, 50.0, 75.0, 100.0, 250.0, 500.0, 750.0, 1000.0, 2500.0, 5000.0, 7500.0, 10000.0])
    );
    assert_eq!(points[0].bucket_counts[2], 1, "7 falls into the bucket bounded by 10");
}

#[test]
fn with_buckets_after_the_first_record_changes_nothing() {
    let mut histogram = histogram("late");
    histogram.record(1.0f64.to_bits(), &add_f64);
    let histogram = histogram.with_buckets(&bits(&[1.0]));

    let (bounds, _) = histogram_data(&histogram);

    assert_eq!(bounds.len(), 15);
}

#[test]
fn a_value_on_a_bound_falls_into_that_bound_s_bucket_and_zero_signs_do_not_matter() {
    let mut histogram = histogram("edges").with_buckets(&bits(&[0.0, 1.0]));
    histogram.record((-0.0f64).to_bits(), &add_f64);
    histogram.record(1.0f64.to_bits(), &add_f64);
    histogram.record(f64::NAN.to_bits(), &add_f64);
    histogram.record(f64::NEG_INFINITY.to_bits(), &add_f64);

    let (_, points) = histogram_data(&histogram);

    assert_eq!(points[0].bucket_counts, vec![2, 1, 1], "NaN is above every bound; -inf and -0 are in the first bucket");
}

#[test]
fn tagged_histogram_series_are_kept_apart_and_reported_after_the_untagged_one() {
    let mut histogram = histogram("tagged").with_buckets(&bits(&[10.0]));
    histogram.record(1.0f64.to_bits(), &add_f64);
    histogram.record_with_tags(20.0f64.to_bits(), &[("a", "1"), ("b", "2")], &add_f64);
    histogram.record_with_tags(30.0f64.to_bits(), &[("b", "2"), ("a", "1")], &add_f64);

    let (_, points) = histogram_data(&histogram);

    assert_eq!(points.len(), 2);
    assert!(points[0].tags.is_empty());
    assert_eq!(points[1].count, 2);
    assert_eq!(points[1].bucket_counts, vec![0, 2]);
    assert_eq!(f64::from_bits(points[1].sum_bits), 50.0);
}

#[test]
fn an_increment_of_zero_still_reports_the_untagged_series() {
    let mut counter = counter("zero");
    counter.add_with_tags(3, &[("route", "/a")]);
    counter.increment(0);
    counter.add_with_tags(2, &[("route", "/a")]);

    let MetricData::Sum(points) = counter.snapshot().data else { panic!("a counter reports a sum") };
    assert_eq!(points.len(), 2);
    assert!(points[0].tags.is_empty());
    assert_eq!(points[0].value, 0);
    assert_eq!(points[1].value, 5, "increments between tagged adds leave the tagged series alone");
}
