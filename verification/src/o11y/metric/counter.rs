//! Counters: monotonically increasing totals, such as a request or error count.

use vstd::prelude::*;

use super::registry::{MetricData, MetricSnapshot, SumPoint, sum_view};
use super::tags::{
    MAX_SERIES, Pair, TagMap, lemma_one_match, no_tags, overflow_pairs, overflow_tags, probe_view, same_tag_set,
    series_holds, series_match, copy_tags,
};

verus! {

/// What a counter holds: its name, the untagged series, one series per tag set, and the overflow series.
pub struct CounterView {
    /// The instrument name, as it appears on the wire.
    pub name: Seq<char>,
    /// The running total of the untagged series.
    pub untagged: u64,
    /// Whether the untagged series has ever been added to.
    pub untagged_set: bool,
    /// One running total per tag set, in the order the tag sets were first seen.
    pub series: Seq<(Seq<Pair>, u64)>,
    /// Everything that arrived after the series cap was reached.
    pub overflow: u64,
}

/// The series after `amount` is added to the one tagged `probe`: an existing series grows, a new tag set starts a
/// series of its own while there is room, and past the cap the series stay as they were.
pub open spec fn series_after_add(series: Seq<(Seq<Pair>, u64)>, probe: Seq<Pair>, amount: u64) -> Seq<
    (Seq<Pair>, u64),
> {
    if series_holds(series, probe) {
        let k = series_match(series, probe);
        series.update(k, (series[k].0, series[k].1.wrapping_add(amount)))
    } else if series.len() < MAX_SERIES {
        series.push((probe, amount))
    } else {
        series
    }
}

/// The overflow total after `amount` is added to the series tagged `probe`: it takes the amount exactly when the
/// tag set is new and the cap has been reached.
pub open spec fn overflow_after_add(series: Seq<(Seq<Pair>, u64)>, probe: Seq<Pair>, overflow: u64, amount: u64) -> u64 {
    if !series_holds(series, probe) && series.len() >= MAX_SERIES {
        overflow.wrapping_add(amount)
    } else {
        overflow
    }
}

/// The running total of the series tagged `probe`, or `0` for a tag set no series has.
pub open spec fn series_total(series: Seq<(Seq<Pair>, u64)>, probe: Seq<Pair>) -> u64 {
    if series_holds(series, probe) {
        series[series_match(series, probe)].1
    } else {
        0
    }
}

/// What [`Counter::value`] reads for `probe`: the untagged series for no tags, the matching series otherwise.
pub open spec fn reading(v: CounterView, probe: Seq<Pair>) -> u64 {
    if probe.len() == 0 {
        v.untagged
    } else {
        series_total(v.series, probe)
    }
}

/// The points a counter reports: the untagged series if it was ever added to, then every tagged series in the
/// order first seen, then the overflow series if anything reached it.
pub open spec fn sum_points(v: CounterView) -> Seq<(Seq<Pair>, u64)> {
    let head: Seq<(Seq<Pair>, u64)> = if v.untagged_set {
        seq![(Seq::<Pair>::empty(), v.untagged)]
    } else {
        Seq::empty()
    };
    let tail: Seq<(Seq<Pair>, u64)> = if v.overflow > 0 {
        seq![(overflow_pairs(), v.overflow)]
    } else {
        Seq::empty()
    };
    head + v.series + tail
}

/// The sum of every tagged series' running total.
pub open spec fn tagged_sum(series: Seq<(Seq<Pair>, u64)>) -> int
    decreases series.len(),
{
    if series.len() == 0 {
        0
    } else {
        tagged_sum(series.drop_last()) + series.last().1
    }
}

/// A monotonically increasing total, such as a request or error count.
///
/// Create one once and reuse it; the application keeps it behind a lock and hands out shared handles. There is no
/// level gate: a counter in a process that never initialises telemetry simply accumulates a number nobody reads.
/// Totals wrap at `u64::MAX`, as an atomic add does.
#[derive(Debug)]
pub struct Counter {
    /// The instrument name, as it appears on the wire.
    name: String,
    /// The series with no tags.
    untagged: u64,
    /// Whether the untagged series has ever been incremented, which is what separates "this series sits at zero"
    /// from "this series does not exist".
    untagged_set: bool,
    /// One series per tag set seen.
    tagged: TagMap<u64>,
    /// Everything that arrived after the per-instrument series cap was reached.
    overflow: u64,
}

impl View for Counter {
    type V = CounterView;

    closed spec fn view(&self) -> CounterView {
        CounterView {
            name: self.name@,
            untagged: self.untagged,
            untagged_set: self.untagged_set,
            series: self.tagged.series(),
            overflow: self.overflow,
        }
    }
}

/// Creates a counter named `name`, with every series empty.
///
/// Two calls with the same name produce two independent instruments rather than one shared series, so call this
/// once and keep the handle.
pub fn counter(name: &str) -> (c: Counter)
    ensures
        c.wf(),
        c@ == (CounterView {
            name: name@,
            untagged: 0,
            untagged_set: false,
            series: Seq::empty(),
            overflow: 0,
        }),
{
    Counter { name: name.to_owned(), untagged: 0, untagged_set: false, tagged: TagMap::new(), overflow: 0 }
}

impl Counter {
    /// The tagged series are within the cap and hold each tag set at most once.
    pub closed spec fn wf(self) -> bool {
        self.tagged.wf()
    }

    /// A well-formed counter tracks at most [`MAX_SERIES`] tag sets, each once.
    pub proof fn lemma_wf(self)
        requires
            self.wf(),
        ensures
            self@.series.len() <= MAX_SERIES,
            super::tags::distinct_series(self@.series),
    {
    }

    /// Adds `amount` to the untagged series.
    pub fn increment(&mut self, amount: u64)
        requires
            old(self).wf(),
        ensures
            final(self).wf(),
            final(self)@ == (CounterView {
                untagged: old(self)@.untagged.wrapping_add(amount),
                untagged_set: true,
                ..old(self)@
            }),
    {
        self.untagged = self.untagged.wrapping_add(amount);
        self.untagged_set = true;
    }

    /// Adds `amount` to the series identified by `tags`.
    ///
    /// Tag order does not matter: `&[("a", "1"), ("b", "2")]` and `&[("b", "2"), ("a", "1")]` are the same series.
    /// Once the instrument holds [`MAX_SERIES`] distinct tag sets, further new ones fold into a single
    /// `o11y.series_overflow` series, so the total stays correct while memory stays bounded. An empty tag set is a
    /// series of its own here, separate from the one [`increment`](Counter::increment) adds to.
    pub fn add_with_tags(&mut self, amount: u64, tags: &[(&str, &str)])
        requires
            old(self).wf(),
        ensures
            final(self).wf(),
            final(self)@ == (CounterView {
                series: series_after_add(old(self)@.series, probe_view(tags@), amount),
                overflow: overflow_after_add(old(self)@.series, probe_view(tags@), old(self)@.overflow, amount),
                ..old(self)@
            }),
    {
        let ghost before = self.tagged.series();
        let ghost probe = probe_view(tags@);
        match self.tagged.with(tags, 0) {
            Some(i) => {
                let current: u64 = *self.tagged.get(i).1;
                let ghost mid = self.tagged.series();
                self.tagged.set_value(i, current.wrapping_add(amount));
                proof {
                    if series_holds(before, probe) {
                        let k = series_match(before, probe);
                        lemma_one_match(before, probe, i as int, k);
                    } else {
                        assert(mid == before.push((probe, 0u64)));
                        assert(self.tagged.series() =~= before.push((probe, amount)));
                    }
                }
            },
            None => {
                self.overflow = self.overflow.wrapping_add(amount);
            },
        }
    }

    /// The running total of the series identified by `tags`, or `0` for a series never written.
    ///
    /// `&[]` reads the untagged series, the one [`increment`](Counter::increment) adds to. Tag order does not
    /// matter, as it does not when writing. A tag set that arrived after the series cap was folded into
    /// `o11y.series_overflow`, so it reads as never written.
    pub fn value(&self, tags: &[(&str, &str)]) -> (total: u64)
        requires
            self.wf(),
        ensures
            total == reading(self@, probe_view(tags@)),
    {
        if tags.len() == 0 {
            return self.untagged;
        }
        match self.tagged.find(tags) {
            Some(i) => {
                let total: u64 = *self.tagged.get(i).1;
                proof {
                    let probe = probe_view(tags@);
                    let k = series_match(self@.series, probe);
                    lemma_one_match(self@.series, probe, i as int, k);
                }
                total
            },
            None => 0,
        }
    }

    /// The counter's readings as of now: the points described by [`sum_points`], under its name.
    pub fn snapshot(&self) -> (s: MetricSnapshot)
        requires
            self.wf(),
        ensures
            s.name@ == self@.name,
            s.data matches MetricData::Sum(points) && sum_view(points@) == sum_points(self@),
    {
        let mut points: Vec<SumPoint> = Vec::new();
        if self.untagged_set {
            points.push(SumPoint { tags: no_tags(), value: self.untagged });
        }
        let ghost head = sum_view(points@);
        let n = self.tagged.len();
        let mut i: usize = 0;
        while i < n
            invariant
                self.wf(),
                n == self@.series.len(),
                i <= n,
                sum_view(points@) == head + self@.series.subrange(0, i as int),
            decreases n - i,
        {
            let (tags, value) = self.tagged.get(i);
            let ghost before = points@;
            points.push(SumPoint { tags: copy_tags(tags), value: *value });
            assert(sum_view(points@) =~= sum_view(before).push(self@.series[i as int]));
            assert(self@.series.subrange(0, i + 1) =~= self@.series.subrange(0, i as int).push(
                self@.series[i as int],
            ));
            i += 1;
        }
        assert(self@.series.subrange(0, n as int) =~= self@.series);
        if self.overflow > 0 {
            let ghost before = points@;
            points.push(SumPoint { tags: overflow_tags(), value: self.overflow });
            assert(sum_view(points@) =~= sum_view(before).push((overflow_pairs(), self.overflow)));
        }
        proof {
            let v = self@;
            if v.untagged_set {
                assert(head =~= seq![(Seq::<Pair>::empty(), v.untagged)]);
            } else {
                assert(head =~= Seq::<(Seq<Pair>, u64)>::empty());
            }
            assert(sum_view(points@) =~= sum_points(v));
        }
        MetricSnapshot { name: self.name.clone(), data: MetricData::Sum(points) }
    }
}

/// The counter after `amount` is added to the series tagged `probe`, as [`Counter::add_with_tags`] leaves it.
pub open spec fn after_add(v: CounterView, probe: Seq<Pair>, amount: u64) -> CounterView {
    CounterView {
        series: series_after_add(v.series, probe, amount),
        overflow: overflow_after_add(v.series, probe, v.overflow, amount),
        ..v
    }
}

/// Replacing one series' total changes the sum by exactly the difference.
proof fn lemma_sum_update(series: Seq<(Seq<Pair>, u64)>, k: int, total: u64)
    requires
        0 <= k < series.len(),
    ensures
        tagged_sum(series.update(k, (series[k].0, total))) == tagged_sum(series) - series[k].1 + total,
    decreases series.len(),
{
    let updated = series.update(k, (series[k].0, total));
    if k < series.len() - 1 {
        lemma_sum_update(series.drop_last(), k, total);
        assert(updated.drop_last() =~= series.drop_last().update(k, (series[k].0, total)));
    } else {
        assert(updated.drop_last() =~= series.drop_last());
    }
}

/// Adding to a tagged counter keeps the books: the tagged series and the overflow series together grow by exactly
/// `amount`, modulo 2^64 as the totals wrap, whether the amount lands in an existing series, starts a new one, or
/// is folded into the overflow series past the cap.
pub proof fn adding_keeps_the_total(v: CounterView, probe: Seq<Pair>, amount: u64)
    requires
        super::tags::distinct_series(v.series),
    ensures
        (tagged_sum(after_add(v, probe, amount).series) + after_add(v, probe, amount).overflow) % 0x1_0000_0000_0000_0000
            == (tagged_sum(v.series) + v.overflow + amount) % 0x1_0000_0000_0000_0000,
{
    let m: int = 0x1_0000_0000_0000_0000;
    let after = after_add(v, probe, amount);
    if series_holds(v.series, probe) {
        let k = series_match(v.series, probe);
        lemma_sum_update(v.series, k, v.series[k].1.wrapping_add(amount));
        let before = tagged_sum(v.series) + v.overflow + amount;
        if v.series[k].1 + amount > u64::MAX {
            assert(tagged_sum(after.series) + after.overflow == before - m);
            vstd::arithmetic::div_mod::lemma_mod_sub_multiples_vanish(before, m);
        }
    } else if v.series.len() < MAX_SERIES {
        assert(after.series.drop_last() =~= v.series);
    } else {
        let before = tagged_sum(v.series) + v.overflow + amount;
        if v.overflow + amount > u64::MAX {
            assert(tagged_sum(after.series) + after.overflow == before - m);
            vstd::arithmetic::div_mod::lemma_mod_sub_multiples_vanish(before, m);
        }
    }
}

/// What is added is what is read back: after adding `amount` under a non-empty tag set that has a series or room
/// for one, [`Counter::value`] of that tag set has grown by exactly `amount`. A tag set wider than the claim mask
/// never matches, not even itself, so it is left out.
pub proof fn adding_then_reading(v: CounterView, probe: Seq<Pair>, amount: u64)
    requires
        super::tags::distinct_series(v.series),
        0 < probe.len() <= super::tags::MASK_BITS,
        series_holds(v.series, probe) || v.series.len() < MAX_SERIES,
    ensures
        reading(after_add(v, probe, amount), probe) == reading(v, probe).wrapping_add(amount),
{
    let after = after_add(v, probe, amount);
    if series_holds(v.series, probe) {
        let k = series_match(v.series, probe);
        assert(same_tag_set(after.series[k].0, probe));
        let j = series_match(after.series, probe);
        assert(same_tag_set(v.series[j].0, probe));
        lemma_one_match(v.series, probe, j, k);
    } else {
        let n = v.series.len() as int;
        super::tags::lemma_same_reflexive(probe);
        assert(same_tag_set(after.series[n].0, probe));
        let j = series_match(after.series, probe);
        if j < n {
            assert(same_tag_set(v.series[j].0, probe));
        }
    }
}

/// A tag set past the cap is folded into the overflow series, so it still reads as never written.
pub proof fn an_overflowed_tag_set_reads_as_never_written(v: CounterView, probe: Seq<Pair>, amount: u64)
    requires
        probe.len() > 0,
        !series_holds(v.series, probe),
        v.series.len() >= MAX_SERIES,
    ensures
        reading(after_add(v, probe, amount), probe) == 0,
        after_add(v, probe, amount).overflow == v.overflow.wrapping_add(amount),
{
}

/// Adding under one tag set never changes what another tag set reads.
pub proof fn adding_leaves_other_series_alone(v: CounterView, probe: Seq<Pair>, other: Seq<Pair>, amount: u64)
    requires
        super::tags::distinct_series(v.series),
        !same_tag_set(probe, other),
    ensures
        reading(after_add(v, probe, amount), other) == reading(v, other),
{
    let after = after_add(v, probe, amount);
    if other.len() > 0 {
        if series_holds(v.series, probe) {
            let k = series_match(v.series, probe);
            if series_holds(v.series, other) {
                let j = series_match(v.series, other);
                if j == k {
                    super::tags::lemma_same_symmetric(v.series[k].0, probe);
                    super::tags::lemma_same_transitive(probe, v.series[k].0, other);
                }
                assert(same_tag_set(after.series[j].0, other));
                let i = series_match(after.series, other);
                assert(same_tag_set(v.series[i].0, other));
                lemma_one_match(v.series, other, i, j);
            } else if series_holds(after.series, other) {
                let i = series_match(after.series, other);
                assert(same_tag_set(v.series[i].0, other));
            }
        } else if v.series.len() < MAX_SERIES {
            let n = v.series.len() as int;
            if series_holds(v.series, other) {
                let j = series_match(v.series, other);
                assert(same_tag_set(after.series[j].0, other));
                let i = series_match(after.series, other);
                if i == n {
                    super::tags::lemma_same_symmetric(probe, other);
                }
                assert(same_tag_set(v.series[i].0, other));
                lemma_one_match(v.series, other, i, j);
            } else if series_holds(after.series, other) {
                let i = series_match(after.series, other);
                if i == n {
                    assert(same_tag_set(probe, other));
                }
                assert(same_tag_set(v.series[i].0, other));
            }
        }
    }
}

/// One call made on a counter, by what it passes.
pub enum CounterCall {
    /// [`Counter::increment`] with this amount.
    Increment(u64),
    /// [`Counter::add_with_tags`] with these tags, as [`probe_view`] reads them, and this amount.
    AddWithTags(Seq<Pair>, u64),
}

/// The counter after `call`, as [`Counter::increment`] and [`Counter::add_with_tags`] leave it.
pub open spec fn after_call(v: CounterView, call: CounterCall) -> CounterView {
    match call {
        CounterCall::Increment(amount) => CounterView {
            untagged: v.untagged.wrapping_add(amount),
            untagged_set: true,
            ..v
        },
        CounterCall::AddWithTags(probe, amount) => after_add(v, probe, amount),
    }
}

/// The counter after `calls`, in order.
pub open spec fn after_calls(v: CounterView, calls: Seq<CounterCall>) -> CounterView
    decreases calls.len(),
{
    if calls.len() == 0 {
        v
    } else {
        after_call(after_calls(v, calls.drop_last()), calls.last())
    }
}

/// The sum of the amounts `calls` pass to [`Counter::increment`], wrapping as the total does.
pub open spec fn incremented(calls: Seq<CounterCall>) -> u64
    decreases calls.len(),
{
    if calls.len() == 0 {
        0
    } else {
        match calls.last() {
            CounterCall::Increment(amount) => incremented(calls.drop_last()).wrapping_add(amount),
            CounterCall::AddWithTags(_, _) => incremented(calls.drop_last()),
        }
    }
}

/// The tagged calls among `calls`, in order.
pub open spec fn tagged_calls(calls: Seq<CounterCall>) -> Seq<CounterCall>
    decreases calls.len(),
{
    if calls.len() == 0 {
        Seq::empty()
    } else {
        match calls.last() {
            CounterCall::Increment(_) => tagged_calls(calls.drop_last()),
            CounterCall::AddWithTags(_, _) => tagged_calls(calls.drop_last()).push(calls.last()),
        }
    }
}

/// A counter just created under `name`.
pub open spec fn fresh_counter(name: Seq<char>) -> CounterView {
    CounterView { name, untagged: 0, untagged_set: false, series: Seq::empty(), overflow: 0 }
}

/// Over a counter's whole history: it keeps its name; the untagged series exists exactly when `increment` was ever
/// called (with any amount, zero included) and holds the wrapping sum of what it was given; and the tagged series
/// and the overflow total are exactly what the tagged calls alone would leave, whatever increments came between
/// them. A snapshot then reports these as [`sum_points`] lays them out.
pub proof fn a_counter_reflects_its_whole_history(name: Seq<char>, calls: Seq<CounterCall>)
    ensures
        after_calls(fresh_counter(name), calls).name == name,
        after_calls(fresh_counter(name), calls).untagged_set <==> exists|i: int|
            0 <= i < calls.len() && #[trigger] calls[i] is Increment,
        after_calls(fresh_counter(name), calls).untagged == incremented(calls),
        after_calls(fresh_counter(name), calls).series == after_calls(fresh_counter(name), tagged_calls(calls)).series,
        after_calls(fresh_counter(name), calls).overflow == after_calls(
            fresh_counter(name),
            tagged_calls(calls),
        ).overflow,
    decreases calls.len(),
{
    if calls.len() > 0 {
        let init = calls.drop_last();
        a_counter_reflects_its_whole_history(name, init);
        assert forall|i: int| 0 <= i < init.len() implies #[trigger] init[i] == calls[i] by {}
        match calls.last() {
            CounterCall::Increment(_) => {
                assert(calls[calls.len() - 1] is Increment);
            },
            CounterCall::AddWithTags(_, _) => {
                let t = tagged_calls(calls);
                assert(t.drop_last() =~= tagged_calls(init));
                if exists|i: int| 0 <= i < calls.len() && #[trigger] calls[i] is Increment {
                    let i = choose|i: int| 0 <= i < calls.len() && #[trigger] calls[i] is Increment;
                    assert(init[i] is Increment);
                }
            },
        }
    }
}

/// Tag order does not matter when reading: two tag sets that are the same set read the same total.
pub proof fn reading_ignores_tag_order(v: CounterView, a: Seq<Pair>, b: Seq<Pair>)
    requires
        super::tags::distinct_series(v.series),
        same_tag_set(a, b),
    ensures
        reading(v, a) == reading(v, b),
{
    super::tags::lemma_same_symmetric(a, b);
    if series_holds(v.series, a) {
        let i = series_match(v.series, a);
        super::tags::lemma_same_transitive(v.series[i].0, a, b);
        let j = series_match(v.series, b);
        super::tags::lemma_same_transitive(v.series[j].0, b, a);
        lemma_one_match(v.series, a, i, j);
    } else if series_holds(v.series, b) {
        let j = series_match(v.series, b);
        super::tags::lemma_same_transitive(v.series[j].0, b, a);
    }
}

} // verus!
