//! The per-tag-set storage shared by the metric instruments.
//!
//! A tag set is matched without regard to the order its pairs were written in, so two call sites tagging the same
//! counter `&[("a", "1"), ("b", "2")]` and `&[("b", "2"), ("a", "1")]` land on one series rather than silently
//! splitting into two. The number of series an instrument tracks is capped, so an unbounded tag domain — a user
//! id, a request path — cannot turn a telemetry call into a memory leak.

use vstd::prelude::*;

use crate::text::text_is;

verus! {

/// The most distinct tag sets one instrument will track before folding the rest into an overflow series.
pub const MAX_SERIES: usize = 1024;

/// How many tags [`same_tags`] can compare, set by the width of the claim mask it uses.
pub const MASK_BITS: usize = 64;

/// One tag, as text: its key and its value.
pub type Pair = (Seq<char>, Seq<char>);

/// One tag set, owned, as stored against a series.
pub type Tags = Vec<(String, String)>;

/// The text of a stored tag set.
pub open spec fn tags_view(t: Seq<(String, String)>) -> Seq<Pair> {
    t.map_values(|p: (String, String)| (p.0@, p.1@))
}

/// The text of a borrowed tag set.
pub open spec fn probe_view(t: Seq<(&str, &str)>) -> Seq<Pair> {
    t.map_values(|p: (&str, &str)| (p.0@, p.1@))
}

/// How many times `x` occurs in `s`.
pub open spec fn count(s: Seq<Pair>, x: Pair) -> nat
    decreases s.len(),
{
    if s.len() == 0 {
        0
    } else {
        count(s.drop_last(), x) + if s.last() == x {
            1nat
        } else {
            0nat
        }
    }
}

/// Whether a stored tag set holds exactly the pairs in `probe`, in any order and with the same repetitions — and,
/// as the claim mask limits it to, no more than [`MASK_BITS`] of them. Past that width the answer is
/// conservatively `false`: a false negative costs a new series rather than a wrong one.
pub open spec fn same_tag_set(stored: Seq<Pair>, probe: Seq<Pair>) -> bool {
    &&& stored.len() == probe.len()
    &&& probe.len() <= MASK_BITS
    &&& forall|x: Pair| #[trigger] count(stored, x) == count(probe, x)
}

/// How many of the first `n` probe positions hold `x` without being claimed.
spec fn unclaimed(p: Seq<Pair>, c: Set<int>, x: Pair, n: int) -> nat
    decreases n,
{
    if n <= 0 {
        0
    } else {
        unclaimed(p, c, x, n - 1) + if !c.contains(n - 1) && p[n - 1] == x {
            1nat
        } else {
            0nat
        }
    }
}

/// How many of the first `n` probe positions are not claimed.
spec fn free(c: Set<int>, n: int) -> nat
    decreases n,
{
    if n <= 0 {
        0
    } else {
        free(c, n - 1) + if !c.contains(n - 1) {
            1nat
        } else {
            0nat
        }
    }
}

/// Claiming an unclaimed position takes exactly its pair out of what is left.
proof fn lemma_claim(p: Seq<Pair>, c: Set<int>, k: int, n: int, x: Pair)
    requires
        0 <= k < n,
        !c.contains(k),
    ensures
        unclaimed(p, c.insert(k), x, n) + (if p[k] == x {
            1nat
        } else {
            0nat
        }) == unclaimed(p, c, x, n),
        free(c.insert(k), n) + 1 == free(c, n),
    decreases n,
{
    if n - 1 > k {
        lemma_claim(p, c, k, n - 1, x);
    } else {
        lemma_unclaimed_same_below(p, c, k, k, x);
    }
}

/// Below `m`, claiming position `k >= m` changes nothing.
proof fn lemma_unclaimed_same_below(p: Seq<Pair>, c: Set<int>, k: int, m: int, x: Pair)
    requires
        0 <= m <= k,
    ensures
        unclaimed(p, c.insert(k), x, m) == unclaimed(p, c, x, m),
        free(c.insert(k), m) == free(c, m),
    decreases m,
{
    if m > 0 {
        lemma_unclaimed_same_below(p, c, k, m - 1, x);
    }
}

/// A pair no unclaimed position holds is not left at all.
proof fn lemma_none_left(p: Seq<Pair>, c: Set<int>, x: Pair, n: int)
    requires
        forall|k: int| 0 <= k < n ==> c.contains(k) || p[k] != x,
    ensures
        unclaimed(p, c, x, n) == 0,
    decreases n,
{
    if n > 0 {
        lemma_none_left(p, c, x, n - 1);
    }
}

/// No pair is left more often than positions are.
proof fn lemma_left_within_free(p: Seq<Pair>, c: Set<int>, x: Pair, n: int)
    ensures
        unclaimed(p, c, x, n) <= free(c, n),
    decreases n,
{
    if n > 0 {
        lemma_left_within_free(p, c, x, n - 1);
    }
}

/// With nothing claimed, what is left of the first `n` positions is their count.
proof fn lemma_nothing_claimed(p: Seq<Pair>, n: int, x: Pair)
    requires
        0 <= n <= p.len(),
    ensures
        unclaimed(p, Set::empty(), x, n) == count(p.subrange(0, n), x),
        free(Set::empty(), n) == n,
    decreases n,
{
    if n > 0 {
        lemma_nothing_claimed(p, n - 1, x);
        assert(p.subrange(0, n).drop_last() =~= p.subrange(0, n - 1));
    }
}

/// Extending a prefix by one element counts that element once more.
proof fn lemma_count_extend(s: Seq<Pair>, j: int, x: Pair)
    requires
        0 <= j < s.len(),
    ensures
        count(s.subrange(0, j + 1), x) == count(s.subrange(0, j), x) + (if s[j] == x {
            1nat
        } else {
            0nat
        }),
{
    assert(s.subrange(0, j + 1).drop_last() =~= s.subrange(0, j));
}

/// A prefix counts nothing more often than the whole.
proof fn lemma_count_prefix(s: Seq<Pair>, j: int, x: Pair)
    requires
        0 <= j <= s.len(),
    ensures
        count(s.subrange(0, j), x) <= count(s, x),
    decreases s.len() - j,
{
    if j < s.len() {
        lemma_count_prefix(s, j + 1, x);
        lemma_count_extend(s, j, x);
    } else {
        assert(s.subrange(0, j) =~= s);
    }
}

/// Setting bit `i` of a mask sets it and leaves every other bit as it was.
proof fn lemma_bit_set(c: u64, i: u64, k: u64)
    requires
        i < 64,
        k < 64,
    ensures
        ((c | (1u64 << i)) & (1u64 << k) != 0) == ((c & (1u64 << k)) != 0 || i == k),
{
    assert(((c | (1u64 << i)) & (1u64 << k) != 0) == ((c & (1u64 << k)) != 0 || i == k)) by (bit_vector)
        requires
            i < 64,
            k < 64,
    ;
}

/// The empty mask has no bit set.
proof fn lemma_bit_empty(k: u64)
    requires
        k < 64,
    ensures
        (0u64 & (1u64 << k)) == 0,
{
    assert((0u64 & (1u64 << k)) == 0) by (bit_vector);
}

/// The first probe position that is not yet claimed in `claimed` and holds the pair `(key, value)`.
fn find_unclaimed(probe: &[(&str, &str)], claimed: u64, key: &str, value: &str, n: usize) -> (r: Option<usize>)
    requires
        n == probe@.len() <= 64,
    ensures
        r matches Some(i) ==> i < n && (claimed & (1u64 << (i as u64))) == 0 && probe_view(probe@)[i as int] == (
        key@, value@),
        r is None ==> forall|k: int|
            0 <= k < n ==> (claimed & (1u64 << (k as u64))) != 0 || probe_view(probe@)[k] != (key@, value@),
{
    let mut index: usize = 0;
    while index < n
        invariant
            n == probe@.len() <= 64,
            index <= n,
            forall|k: int|
                0 <= k < index ==> (claimed & (1u64 << (k as u64))) != 0 || probe_view(probe@)[k] != (
                key@,
                value@,
            ),
        decreases n - index,
    {
        if claimed & (1u64 << (index as u64)) == 0 && text_is(probe[index].0, key) && text_is(probe[index].1, value) {
            return Some(index);
        }
        index += 1;
    }
    None
}

/// Whether a stored tag set holds exactly the pairs in `probe`, in any order. See [`same_tag_set`].
///
/// Matched from the stored side, claiming each probe pair at most once, so a repeated pair on either side cannot
/// stand in for a missing one. The claims are kept in a 64-bit mask, so the comparison never allocates; past that
/// width the answer is `false`.
pub fn same_tags(stored: &[(String, String)], probe: &[(&str, &str)]) -> (r: bool)
    ensures
        r == same_tag_set(tags_view(stored@), probe_view(probe@)),
{
    let ghost sv = tags_view(stored@);
    let ghost pv = probe_view(probe@);
    let n = probe.len();
    if stored.len() != n || n > MASK_BITS {
        return false;
    }
    let mut claimed: u64 = 0;
    let ghost mut c: Set<int> = Set::empty();
    proof {
        assert forall|x: Pair| #[trigger] unclaimed(pv, c, x, n as int) + count(sv.subrange(0, 0), x) == count(
            pv,
            x,
        ) by {
            lemma_nothing_claimed(pv, n as int, x);
            assert(pv.subrange(0, n as int) =~= pv);
            assert(sv.subrange(0, 0) =~= Seq::<Pair>::empty());
        }
        lemma_nothing_claimed(pv, n as int, (Seq::empty(), Seq::empty()));
        assert forall|i: int| 0 <= i < 64 implies (((claimed & (1u64 << (i as u64))) != 0) <==> c.contains(i)) by {
            lemma_bit_empty(i as u64);
        }
    }
    let mut j: usize = 0;
    while j < n
        invariant
            n == probe@.len() == stored@.len(),
            n <= 64,
            sv == tags_view(stored@),
            pv == probe_view(probe@),
            j <= n,
            forall|i: int| 0 <= i < 64 ==> (((claimed & (1u64 << (i as u64))) != 0) <==> c.contains(i)),
            forall|i: int| c.contains(i) ==> 0 <= i < n,
            forall|x: Pair| #[trigger] unclaimed(pv, c, x, n as int) + count(sv.subrange(0, j as int), x) == count(
                pv,
                x,
            ),
            free(c, n as int) + j == n,
        decreases n - j,
    {
        let key = stored[j].0.as_str();
        let value = stored[j].1.as_str();
        let ghost target = sv[j as int];
        assert(target == (key@, value@));
        match find_unclaimed(probe, claimed, key, value, n) {
            None => {
                proof {
                    assert forall|k: int| 0 <= k < n implies c.contains(k) || pv[k] != target by {
                        if 0 <= k < 64 {
                        }
                    }
                    lemma_none_left(pv, c, target, n as int);
                    lemma_count_extend(sv, j as int, target);
                    lemma_count_prefix(sv, j + 1, target);
                    assert(count(sv, target) != count(pv, target));
                }
                return false;
            },
            Some(index) => {
                proof {
                    assert(!c.contains(index as int));
                    assert forall|x: Pair| #[trigger] unclaimed(pv, c.insert(index as int), x, n as int) + count(
                        sv.subrange(0, j + 1),
                        x,
                    ) == count(pv, x) by {
                        lemma_claim(pv, c, index as int, n as int, x);
                        lemma_count_extend(sv, j as int, x);
                    }
                    lemma_claim(pv, c, index as int, n as int, target);
                    assert forall|i: int| 0 <= i < 64 implies (((claimed | (1u64 << (index as u64))) & (1u64 << (
                    i as u64))) != 0) <==> c.insert(index as int).contains(i) by {
                        lemma_bit_set(claimed, index as u64, i as u64);
                    }
                }
                claimed = claimed | (1u64 << (index as u64));
                proof {
                    c = c.insert(index as int);
                }
                j += 1;
            },
        }
    }
    proof {
        assert(sv.subrange(0, n as int) =~= sv);
        assert forall|x: Pair| #[trigger] count(sv, x) == count(pv, x) by {
            lemma_left_within_free(pv, c, x, n as int);
        }
    }
    true
}

/// Copies a borrowed tag set into an owned one, for storage.
pub fn owned(tags: &[(&str, &str)]) -> (out: Tags)
    ensures
        tags_view(out@) == probe_view(tags@),
{
    let mut out: Tags = Vec::new();
    let mut i: usize = 0;
    while i < tags.len()
        invariant
            i <= tags@.len(),
            tags_view(out@) == probe_view(tags@.subrange(0, i as int)),
        decreases tags@.len() - i,
    {
        let (key, value) = tags[i];
        let ghost before = out@;
        out.push((key.to_owned(), value.to_owned()));
        assert(tags@.subrange(0, i + 1) =~= tags@.subrange(0, i as int).push(tags@[i as int]));
        assert(tags_view(out@) =~= tags_view(before).push((key@, value@)));
        assert(probe_view(tags@.subrange(0, i + 1)) =~= probe_view(tags@.subrange(0, i as int)).push((key@, value@)));
        i += 1;
    }
    assert(tags@.subrange(0, tags@.len() as int) =~= tags@);
    out
}

/// Copies a stored tag set, for a reading that outlives the instrument's lock.
pub fn copy_tags(tags: &Tags) -> (out: Tags)
    ensures
        tags_view(out@) == tags_view(tags@),
{
    let mut out: Tags = Vec::new();
    let mut i: usize = 0;
    while i < tags.len()
        invariant
            i <= tags@.len(),
            tags_view(out@) == tags_view(tags@.subrange(0, i as int)),
        decreases tags@.len() - i,
    {
        let ghost before = out@;
        let key = tags[i].0.clone();
        let value = tags[i].1.clone();
        out.push((key, value));
        assert(tags@.subrange(0, i + 1) =~= tags@.subrange(0, i as int).push(tags@[i as int]));
        assert(tags_view(out@) =~= tags_view(before).push((key@, value@)));
        assert(tags_view(tags@.subrange(0, i + 1)) =~= tags_view(tags@.subrange(0, i as int)).push(
            (tags@[i as int].0@, tags@[i as int].1@),
        ));
        i += 1;
    }
    assert(tags@.subrange(0, tags@.len() as int) =~= tags@);
    out
}

/// Whether some series in `series` has the tag set `probe`.
pub open spec fn series_holds<T>(series: Seq<(Seq<Pair>, T)>, probe: Seq<Pair>) -> bool {
    exists|k: int| 0 <= k < series.len() && same_tag_set(#[trigger] series[k].0, probe)
}

/// The position of the series whose tag set is `probe`, when [`series_holds`] says there is one.
pub open spec fn series_match<T>(series: Seq<(Seq<Pair>, T)>, probe: Seq<Pair>) -> int {
    choose|k: int| 0 <= k < series.len() && same_tag_set(#[trigger] series[k].0, probe)
}

/// The tag set of a series that carries no tags: the untagged one.
pub fn no_tags() -> (t: Tags)
    ensures
        tags_view(t@) == Seq::<Pair>::empty(),
{
    let t: Tags = Vec::new();
    assert(tags_view(t@) =~= Seq::<Pair>::empty());
    t
}

/// The tag set reported for samples that arrived after [`MAX_SERIES`] was reached.
pub open spec fn overflow_pairs() -> Seq<Pair> {
    seq![("o11y.series_overflow"@, "true"@)]
}

/// The tag set reported for samples that arrived after [`MAX_SERIES`] was reached.
pub fn overflow_tags() -> (t: Tags)
    ensures
        tags_view(t@) == overflow_pairs(),
{
    let mut t: Tags = Vec::new();
    t.push(("o11y.series_overflow".to_owned(), "true".to_owned()));
    assert(tags_view(t@) =~= overflow_pairs());
    t
}

/// Two stored tag sets that are the same tag set are one series, so no two series of a well-formed map are.
pub open spec fn distinct_series<T>(series: Seq<(Seq<Pair>, T)>) -> bool {
    forall|i: int, j: int|
        0 <= i < series.len() && 0 <= j < series.len() && i != j ==> !same_tag_set(
            #[trigger] series[i].0,
            #[trigger] series[j].0,
        )
}

/// A map from a tag set to whatever that series accumulates into, capped at [`MAX_SERIES`] series.
#[derive(Debug)]
pub struct TagMap<T> {
    /// The series, in the order their tag sets were first seen.
    entries: Vec<(Tags, T)>,
}

impl<T> TagMap<T> {
    /// The series, as text, in the order their tag sets were first seen.
    pub closed spec fn series(self) -> Seq<(Seq<Pair>, T)> {
        self.entries@.map_values(|e: (Tags, T)| (tags_view(e.0@), e.1))
    }

    /// The map is within its cap and holds each tag set at most once.
    pub open spec fn wf(self) -> bool {
        &&& self.series().len() <= MAX_SERIES
        &&& distinct_series(self.series())
    }

    /// Whether the map holds a series whose tag set is `probe`.
    pub open spec fn holds(self, probe: Seq<Pair>) -> bool {
        exists|k: int| 0 <= k < self.series().len() && same_tag_set(#[trigger] self.series()[k].0, probe)
    }

    /// An empty map.
    pub fn new() -> (m: Self)
        ensures
            m.wf(),
            m.series() == Seq::<(Seq<Pair>, T)>::empty(),
    {
        let m = TagMap { entries: Vec::new() };
        assert(m.series() =~= Seq::<(Seq<Pair>, T)>::empty());
        m
    }

    /// How many series the map holds.
    pub fn len(&self) -> (n: usize)
        ensures
            n == self.series().len(),
    {
        self.entries.len()
    }

    /// The tag set and value of series `i`.
    pub fn get(&self, i: usize) -> (r: (&Tags, &T))
        requires
            i < self.series().len(),
        ensures
            tags_view(r.0@) == self.series()[i as int].0,
            *r.1 == self.series()[i as int].1,
    {
        let entry = &self.entries[i];
        (&entry.0, &entry.1)
    }

    /// The series whose tag set is `tags`, if the map holds one.
    pub fn find(&self, tags: &[(&str, &str)]) -> (r: Option<usize>)
        ensures
            r matches Some(i) ==> i < self.series().len() && same_tag_set(
                self.series()[i as int].0,
                probe_view(tags@),
            ),
            r is None ==> forall|i: int|
                0 <= i < self.series().len() ==> !same_tag_set(
                    #[trigger] self.series()[i].0,
                    probe_view(tags@),
                ),
    {
        let mut i: usize = 0;
        while i < self.entries.len()
            invariant
                i <= self.series().len() == self.entries@.len(),
                forall|k: int|
                    0 <= k < i ==> !same_tag_set(#[trigger] self.series()[k].0, probe_view(tags@)),
            decreases self.entries@.len() - i,
        {
            if same_tags(&self.entries[i].0, tags) {
                return Some(i);
            }
            i += 1;
        }
        None
    }

    /// The series for `tags`, created holding `make` the first time that tag set is seen.
    ///
    /// Returns `None` when the tag set is new and the map already holds [`MAX_SERIES`] series, leaving the map as
    /// it was: the caller folds a refused sample into an overflow series instead, so a total stays right even
    /// though its breakdown stops.
    pub fn with(&mut self, tags: &[(&str, &str)], make: T) -> (r: Option<usize>)
        requires
            old(self).wf(),
        ensures
            final(self).wf(),
            old(self).holds(probe_view(tags@)) ==> {
                &&& final(self).series() == old(self).series()
                &&& r matches Some(i) && i < final(self).series().len() && same_tag_set(
                    final(self).series()[i as int].0,
                    probe_view(tags@),
                )
            },
            !old(self).holds(probe_view(tags@)) && old(self).series().len() < MAX_SERIES ==> {
                &&& final(self).series() == old(self).series().push((probe_view(tags@), make))
                &&& r == Some(old(self).series().len() as usize)
            },
            !old(self).holds(probe_view(tags@)) && old(self).series().len() >= MAX_SERIES ==> {
                &&& final(self).series() == old(self).series()
                &&& r is None
            },
    {
        match self.find(tags) {
            Some(i) => {
                assert(same_tag_set(self.series()[i as int].0, probe_view(tags@)));
                Some(i)
            },
            None => {
                if self.entries.len() >= MAX_SERIES {
                    return None;
                }
                let ghost before = self.series();
                let index = self.entries.len();
                self.entries.push((owned(tags), make));
                assert(self.series() =~= before.push((probe_view(tags@), make)));
                proof {
                    assert forall|a: int, b: int|
                        0 <= a < self.series().len() && 0 <= b < self.series().len() && a != b implies !same_tag_set(
                        #[trigger] self.series()[a].0,
                        #[trigger] self.series()[b].0,
                    ) by {
                        if a == index as int {
                            assert(!same_tag_set(before[b].0, probe_view(tags@)));
                            lemma_same_symmetric(self.series()[a].0, self.series()[b].0);
                        } else if b == index as int {
                            assert(!same_tag_set(before[a].0, probe_view(tags@)));
                        } else {
                            assert(self.series()[a] == before[a]);
                            assert(self.series()[b] == before[b]);
                        }
                    }
                }
                Some(index)
            },
        }
    }

    /// Replaces the value of series `i`, keeping its tag set.
    pub fn set_value(&mut self, i: usize, value: T)
        requires
            old(self).wf(),
            i < old(self).series().len(),
        ensures
            final(self).wf(),
            final(self).series() == old(self).series().update(
                i as int,
                (old(self).series()[i as int].0, value),
            ),
    {
        let ghost before = self.series();
        let (tags, _) = self.entries.remove(i);
        self.entries.insert(i, (tags, value));
        assert(self.series() =~= before.update(i as int, (before[i as int].0, value)));
        assert forall|a: int, b: int|
            0 <= a < self.series().len() && 0 <= b < self.series().len() && a != b implies !same_tag_set(
            #[trigger] self.series()[a].0,
            #[trigger] self.series()[b].0,
        ) by {
            assert(self.series()[a].0 == before[a].0);
            assert(self.series()[b].0 == before[b].0);
        }
    }
}

/// Being the same tag set does not depend on which side is the stored one.
pub proof fn lemma_same_symmetric(a: Seq<Pair>, b: Seq<Pair>)
    ensures
        same_tag_set(a, b) == same_tag_set(b, a),
{
}

/// A tag set that fits the claim mask is the same set as itself.
pub proof fn lemma_same_reflexive(a: Seq<Pair>)
    requires
        a.len() <= MASK_BITS,
    ensures
        same_tag_set(a, a),
{
}

/// Being the same tag set carries over from one set to a third.
pub proof fn lemma_same_transitive(a: Seq<Pair>, b: Seq<Pair>, c: Seq<Pair>)
    requires
        same_tag_set(a, b),
        same_tag_set(b, c),
    ensures
        same_tag_set(a, c),
{
    assert forall|x: Pair| #[trigger] count(a, x) == count(c, x) by {
        assert(count(a, x) == count(b, x));
        assert(count(b, x) == count(c, x));
    }
}

/// In series that hold each tag set at most once, at most one series matches a probe.
pub proof fn lemma_one_match<T>(series: Seq<(Seq<Pair>, T)>, probe: Seq<Pair>, i: int, j: int)
    requires
        distinct_series(series),
        0 <= i < series.len(),
        0 <= j < series.len(),
        same_tag_set(series[i].0, probe),
        same_tag_set(series[j].0, probe),
    ensures
        i == j,
{
    if i != j {
        lemma_same_symmetric(series[j].0, probe);
        lemma_same_transitive(series[i].0, probe, series[j].0);
    }
}

/// Matching ignores the order tags are written in: two orderings of the same tag set — one a permutation of the
/// other — match each other, as long as the set fits the claim mask.
pub proof fn tag_order_does_not_matter(a: Seq<Pair>, b: Seq<Pair>)
    requires
        a.len() == b.len(),
        a.len() <= MASK_BITS,
        forall|x: Pair| count(a, x) == count(b, x),
    ensures
        same_tag_set(a, b),
{
}

} // verus!
