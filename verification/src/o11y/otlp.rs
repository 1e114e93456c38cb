//! Turning records into OTLP/HTTP JSON payloads.
//!
//! Three encoding rules govern everything here, and getting any of them wrong makes a collector reject the whole
//! payload with no useful diagnostic:
//!
//! 1. OTLP/JSON follows the proto3 JSON mapping, so 64-bit integers are serialised as **decimal strings**.
//! 2. `traceId`, `spanId` and `parentSpanId` are **lowercase hex**, not the base64 every other `bytes` field uses.
//! 3. A histogram's `bucketCounts` is exactly one longer than its `explicitBounds`: the extra entry is the bucket
//!    above the final bound.

use vstd::prelude::*;

use super::json::{
    Json, JsonView, element, element_count, empty_array, empty_object, jv, jv_items, jv_members, lemma_first_member,
    first_member, member_value, push_item, push_member, single, string,
};
use super::level::{otlp_range_name, severity, severity_label, severity_text_names_the_number_s_range};
use super::metric::registry::{GaugePoint, HistogramPoint, MetricData, MetricSnapshot, SumPoint};
use super::record::{LogRecord, SpanEvent, SpanRecord, Status};
use super::trace::ids::hex_text;
use super::trace::span_context::SpanContext;
use super::value::Value;
use crate::text::{decimal, decimal_chars, signed_decimal, signed_decimal_chars, string_of};

verus! {

/// The object with the given members.
pub open spec fn obj(members: Seq<(Seq<char>, JsonView)>) -> JsonView {
    JsonView::Object(members)
}

/// The object `{ key: value }`.
pub open spec fn one(key: Seq<char>, value: JsonView) -> JsonView {
    JsonView::Object(seq![(key, value)])
}

/// A 64-bit integer the way the proto3 JSON mapping requires: a decimal string.
pub open spec fn big(n: u64) -> JsonView {
    JsonView::String(decimal(n as nat))
}

/// Encodes a 64-bit integer the way the proto3 JSON mapping requires: a decimal string.
pub fn big_int(n: u64) -> (j: Json)
    ensures
        jv(j) == big(n),
{
    let digits = decimal_chars(n);
    Json::String(string_of(digits.as_slice()))
}

/// The standard base64 alphabet.
pub open spec fn b64(i: nat) -> char {
    if i < 26 {
        (0x41 + i) as char
    } else if i < 52 {
        (0x61 + i - 26) as char
    } else if i < 62 {
        (0x30 + i - 52) as char
    } else if i == 62 {
        '+'
    } else {
        '/'
    }
}

/// Executable [`b64`].
fn b64_char(i: u8) -> (c: char)
    requires
        i < 64,
    ensures
        c == b64(i as nat),
{
    if i < 26 {
        (0x41u8 + i) as char
    } else if i < 52 {
        (0x61u8 + i - 26) as char
    } else if i < 62 {
        (0x30u8 + i - 52) as char
    } else if i == 62 {
        '+'
    } else {
        '/'
    }
}

/// The four characters three bytes encode to.
pub open spec fn quad(a: u8, b: u8, c: u8) -> Seq<char> {
    seq![b64(a as nat / 4), b64((a as nat % 4) * 16 + b as nat / 16), b64((b as nat % 16) * 4 + c as nat / 64), b64(
        c as nat % 64,
    )]
}

/// The encoding of the first `k` whole three-byte chunks of `bytes`.
pub open spec fn whole_chunks(bytes: Seq<u8>, k: nat) -> Seq<char>
    decreases k,
{
    if k == 0 {
        Seq::empty()
    } else {
        let i = 3 * (k - 1);
        whole_chunks(bytes, (k - 1) as nat) + quad(bytes[i], bytes[i + 1], bytes[i + 2])
    }
}

/// The encoding of the one or two bytes left after the whole chunks, padded with `=` to four characters.
pub open spec fn tail_chunk(bytes: Seq<u8>) -> Seq<char> {
    let n = bytes.len();
    let i = n - n % 3;
    if n % 3 == 0 {
        Seq::empty()
    } else if n % 3 == 1 {
        seq![b64(bytes[i] as nat / 4), b64((bytes[i] as nat % 4) * 16), '=', '=']
    } else {
        seq![b64(bytes[i] as nat / 4), b64((bytes[i] as nat % 4) * 16 + bytes[i + 1] as nat / 16), b64(
            (bytes[i + 1] as nat % 16) * 4,
        ), '=']
    }
}

/// Standard base64 with padding, which is what the proto3 JSON mapping uses for `bytes`.
pub open spec fn base64_text(bytes: Seq<u8>) -> Seq<char> {
    whole_chunks(bytes, bytes.len() / 3) + tail_chunk(bytes)
}

/// Encodes `bytes` as standard base64 with padding.
pub fn base64(bytes: &[u8]) -> (s: String)
    ensures
        s@ == base64_text(bytes@),
{
    let n = bytes.len();
    let whole = n / 3;
    let mut out: Vec<char> = Vec::new();
    let mut k: usize = 0;
    while k < whole
        invariant
            n == bytes@.len(),
            whole == n / 3,
            k <= whole,
            out@ == whole_chunks(bytes@, k as nat),
        decreases whole - k,
    {
        let i = 3 * k;
        let a = bytes[i];
        let b = bytes[i + 1];
        let c = bytes[i + 2];
        out.push(b64_char(a / 4));
        out.push(b64_char((a % 4) * 16 + b / 16));
        out.push(b64_char((b % 16) * 4 + c / 64));
        out.push(b64_char(c % 64));
        assert(out@ =~= whole_chunks(bytes@, (k + 1) as nat));
        k += 1;
    }
    let i = 3 * whole;
    if n % 3 == 1 {
        let a = bytes[i];
        out.push(b64_char(a / 4));
        out.push(b64_char((a % 4) * 16));
        out.push('=');
        out.push('=');
    } else if n % 3 == 2 {
        let a = bytes[i];
        let b = bytes[i + 1];
        out.push(b64_char(a / 4));
        out.push(b64_char((a % 4) * 16 + b / 16));
        out.push(b64_char((b % 16) * 4));
        out.push('=');
    }
    assert(out@ =~= base64_text(bytes@));
    string_of(out.as_slice())
}

/// A value as an OTLP `AnyValue`.
pub open spec fn any_value_view(v: Value) -> JsonView
    decreases v,
{
    match v {
        Value::Bool(b) => one("boolValue"@, JsonView::Bool(b)),
        Value::Int(i) => one("intValue"@, JsonView::String(signed_decimal(i as int))),
        Value::Double(bits) => one("doubleValue"@, JsonView::Double(bits)),
        Value::String(s) => one("stringValue"@, JsonView::String(s@)),
        Value::Bytes(b) => one("bytesValue"@, JsonView::String(base64_text(b@))),
        Value::List(items) => one("arrayValue"@, one("values"@, JsonView::Array(values_view(items@)))),
        Value::Entries(entries) => one("kvlistValue"@, one("values"@, JsonView::Array(entries_view(entries@)))),
    }
}

/// The elements of a list value, each as an `AnyValue`.
pub open spec fn values_view(items: Seq<Value>) -> Seq<JsonView>
    decreases items,
{
    if items.len() == 0 {
        Seq::empty()
    } else {
        values_view(items.drop_last()).push(any_value_view(items.last()))
    }
}

/// Named values as OTLP `KeyValue` objects.
pub open spec fn entries_view(entries: Seq<(String, Value)>) -> Seq<JsonView>
    decreases entries,
{
    if entries.len() == 0 {
        Seq::empty()
    } else {
        entries_view(entries.drop_last()).push(
            obj(seq![("key"@, JsonView::String(entries.last().0@)), ("value"@, any_value_view(entries.last().1))]),
        )
    }
}

/// Encodes one value as an OTLP `AnyValue`.
pub fn any_value(v: &Value) -> (j: Json)
    ensures
        jv(j) == any_value_view(*v),
    decreases v, 0nat,
{
    proof {
        reveal_strlit("boolValue");
        reveal_strlit("intValue");
        reveal_strlit("doubleValue");
        reveal_strlit("stringValue");
        reveal_strlit("bytesValue");
        reveal_strlit("arrayValue");
        reveal_strlit("kvlistValue");
        reveal_strlit("values");
    }
    match v {
        Value::Bool(b) => single("boolValue", Json::Bool(*b)),
        Value::Int(i) => {
            let digits = signed_decimal_chars(*i);
            single("intValue", Json::String(string_of(digits.as_slice())))
        },
        Value::Double(bits) => single("doubleValue", Json::Double(*bits)),
        Value::String(s) => single("stringValue", string(s.as_str())),
        Value::Bytes(b) => single("bytesValue", Json::String(base64(b.as_slice()))),
        Value::List(items) => {
            let mut out = empty_array();
            let mut i: usize = 0;
            while i < items.len()
                invariant
                    *v == Value::List(*items),
                    i <= items@.len(),
                    jv_items(out@) == values_view(items@.subrange(0, i as int)),
                decreases items@.len() - i,
            {
                proof {
                    assert(decreases_to!(*v => (*v)->List_0));
                    assert(decreases_to!(*items => items@));
                    assert(decreases_to!(items@ => items@[i as int]));
                }
                let item = any_value(&items[i]);
                push_item(&mut out, item);
                assert(items@.subrange(0, i + 1).drop_last() =~= items@.subrange(0, i as int));
                i += 1;
            }
            assert(items@.subrange(0, items@.len() as int) =~= items@);
            single("arrayValue", single("values", Json::Array(out)))
        },
        Value::Entries(entries) => {
            let mut out = empty_array();
            let mut i: usize = 0;
            while i < entries.len()
                invariant
                    *v == Value::Entries(*entries),
                    i <= entries@.len(),
                    jv_items(out@) == entries_view(entries@.subrange(0, i as int)),
                decreases entries@.len() - i,
            {
                proof {
                    assert(decreases_to!(*v => (*v)->Entries_0));
                    assert(decreases_to!(*entries => entries@));
                    assert(decreases_to!(entries@ => entries@[i as int]));
                    assert(decreases_to!(entries@[i as int] => entries@[i as int].1));
                }
                let entry = key_value(&entries[i].0, &entries[i].1);
                push_item(&mut out, entry);
                assert(entries@.subrange(0, i + 1).drop_last() =~= entries@.subrange(0, i as int));
                i += 1;
            }
            assert(entries@.subrange(0, entries@.len() as int) =~= entries@);
            single("kvlistValue", single("values", Json::Array(out)))
        },
    }
}

/// Encodes one named value as an OTLP `KeyValue`.
fn key_value(key: &String, v: &Value) -> (j: Json)
    ensures
        jv(j) == obj(seq![("key"@, JsonView::String(key@)), ("value"@, any_value_view(*v))]),
    decreases v, 1nat,
{
    let mut members = empty_object();
    push_member(&mut members, "key", string(key.as_str()));
    let encoded = any_value(v);
    push_member(&mut members, "value", encoded);
    proof {
        reveal_strlit("key");
        reveal_strlit("value");
    }
    assert(jv_members(members@) =~= seq![("key"@, JsonView::String(key@)), ("value"@, any_value_view(*v))]);
    Json::Object(members)
}


/// A set of fields as an OTLP `KeyValue` list.
pub open spec fn key_values_view(fields: Seq<(String, Value)>) -> JsonView {
    JsonView::Array(entries_view(fields))
}

/// Encodes a set of fields as an OTLP `KeyValue` list.
pub fn key_values(fields: &Vec<(String, Value)>) -> (j: Json)
    ensures
        jv(j) == key_values_view(fields@),
{
    let mut out = empty_array();
    let mut i: usize = 0;
    while i < fields.len()
        invariant
            i <= fields@.len(),
            jv_items(out@) == entries_view(fields@.subrange(0, i as int)),
        decreases fields@.len() - i,
    {
        let entry = key_value(&fields[i].0, &fields[i].1);
        push_item(&mut out, entry);
        assert(fields@.subrange(0, i + 1).drop_last() =~= fields@.subrange(0, i as int));
        i += 1;
    }
    assert(fields@.subrange(0, fields@.len() as int) =~= fields@);
    Json::Array(out)
}

/// The resource block: everything that describes the process rather than one record — the configuration's
/// attributes, then the enrichment's. All of them are identical across every record in a batch, so carrying them
/// once per batch rather than once per record is both correct OTLP and a large saving on the wire.
pub open spec fn resource_view(base: Seq<(String, Value)>, enrichment: Seq<(String, Value)>) -> JsonView {
    one("attributes"@, JsonView::Array(entries_view(base + enrichment)))
}

/// Encodes the resource block.
pub fn resource(base: &Vec<(String, Value)>, enrichment: &Vec<(String, Value)>) -> (j: Json)
    ensures
        jv(j) == resource_view(base@, enrichment@),
{
    let ghost all = base@ + enrichment@;
    let mut out = empty_array();
    let mut k: usize = 0;
    assert(all.subrange(0, 0) =~= Seq::<(String, Value)>::empty());
    while k < base.len()
        invariant
            all == base@ + enrichment@,
            k <= base@.len(),
            jv_items(out@) == entries_view(all.subrange(0, k as int)),
        decreases base@.len() - k,
    {
        let entry = key_value(&base[k].0, &base[k].1);
        push_item(&mut out, entry);
        assert(all.subrange(0, k + 1).drop_last() =~= all.subrange(0, k as int));
        assert(all[k as int] == base@[k as int]);
        k += 1;
    }
    let mut m: usize = 0;
    while m < enrichment.len()
        invariant
            all == base@ + enrichment@,
            m <= enrichment@.len(),
            jv_items(out@) == entries_view(all.subrange(0, base@.len() + m)),
        decreases enrichment@.len() - m,
    {
        let entry = key_value(&enrichment[m].0, &enrichment[m].1);
        push_item(&mut out, entry);
        assert(all.subrange(0, base@.len() + m + 1).drop_last() =~= all.subrange(0, base@.len() + m));
        assert(all[base@.len() + m] == enrichment@[m as int]);
        m += 1;
    }
    assert(all.subrange(0, all.len() as int) =~= all);
    proof {
        reveal_strlit("attributes");
    }
    single("attributes", Json::Array(out))
}

/// The instrumentation scope's name.
pub const SCOPE_NAME: &'static str = "rust-sak/o11y";

/// The instrumentation scope's version: this library's.
pub const SCOPE_VERSION: &'static str = "0.1.0";

/// The instrumentation scope block.
pub open spec fn scope_view() -> JsonView {
    obj(seq![("name"@, JsonView::String(SCOPE_NAME@)), ("version"@, JsonView::String(SCOPE_VERSION@))])
}

/// Encodes the instrumentation scope block.
pub fn scope() -> (j: Json)
    ensures
        jv(j) == scope_view(),
{
    let mut members = empty_object();
    push_member(&mut members, "name", string(SCOPE_NAME));
    push_member(&mut members, "version", string(SCOPE_VERSION));
    proof {
        reveal_strlit("name");
        reveal_strlit("version");
    }
    assert(jv_members(members@) =~= seq![("name"@, JsonView::String(SCOPE_NAME@)), ("version"@, JsonView::String(SCOPE_VERSION@))]);
    Json::Object(members)
}

/// Something stamped with the generation of the enrichment it was emitted under.
pub trait Stamped {
    /// The generation of the enrichment it was emitted under.
    spec fn stamp(&self) -> u64;

    /// Executable [`stamp`](Stamped::stamp).
    fn stamp_of(&self) -> (g: u64)
        ensures
            g == self.stamp(),
    ;
}

impl Stamped for LogRecord {
    open spec fn stamp(&self) -> u64 {
        self.enrichment.generation
    }

    fn stamp_of(&self) -> (g: u64) {
        self.enrichment.generation
    }
}

impl Stamped for SpanRecord {
    open spec fn stamp(&self) -> u64 {
        self.enrichment.generation
    }

    fn stamp_of(&self) -> (g: u64) {
        self.enrichment.generation
    }
}

/// The first group whose members carry `stamp`, if any.
pub open spec fn group_of<T: Stamped>(groups: Seq<Seq<T>>, stamp: u64) -> Option<int>
    decreases groups.len(),
{
    if groups.len() == 0 {
        None
    } else {
        match group_of(groups.drop_last(), stamp) {
            Some(i) => Some(i),
            None => if groups.last()[0].stamp() == stamp {
                Some(groups.len() - 1)
            } else {
                None
            },
        }
    }
}

/// Records split into runs sharing one enrichment, in the order each enrichment first appears, each run in the
/// order its records came.
///
/// Records normally all share one enrichment, so this is a single group. It stops being one only across a session
/// renewal, where the records emitted either side genuinely belong to different sessions — and OTLP allows a
/// payload to carry several resource blocks, so each group keeps the session it was actually emitted under.
pub open spec fn grouped<T: Stamped>(records: Seq<T>) -> Seq<Seq<T>>
    decreases records.len(),
{
    if records.len() == 0 {
        Seq::empty()
    } else {
        let groups = grouped(records.drop_last());
        let r = records.last();
        match group_of(groups, r.stamp()) {
            Some(i) => groups.update(i, groups[i].push(r)),
            None => groups.push(seq![r]),
        }
    }
}

/// The records of a list of runs.
pub open spec fn runs_view<T>(groups: Seq<Vec<T>>) -> Seq<Seq<T>> {
    groups.map_values(|g: Vec<T>| g@)
}

/// A found group lies in range and carries the stamp, and no earlier one does.
proof fn lemma_group_of<T: Stamped>(groups: Seq<Seq<T>>, stamp: u64)
    requires
        forall|i: int| 0 <= i < groups.len() ==> #[trigger] groups[i].len() > 0,
    ensures
        group_of(groups, stamp) matches Some(i) ==> 0 <= i < groups.len() && groups[i][0].stamp() == stamp
            && forall|k: int| 0 <= k < i ==> groups[k][0].stamp() != stamp,
        group_of(groups, stamp) is None ==> forall|k: int| 0 <= k < groups.len() ==> groups[k][0].stamp() != stamp,
    decreases groups.len(),
{
    if groups.len() > 0 {
        let init = groups.drop_last();
        assert forall|i: int| 0 <= i < init.len() implies #[trigger] init[i].len() > 0 by {
            assert(init[i] == groups[i]);
        }
        lemma_group_of(init, stamp);
        assert forall|k: int| 0 <= k < init.len() implies init[k] == groups[k] by {}
    }
}

/// Every run has at least one record.
proof fn lemma_groups_nonempty<T: Stamped>(records: Seq<T>)
    ensures
        forall|i: int| 0 <= i < grouped(records).len() ==> #[trigger] grouped(records)[i].len() > 0,
    decreases records.len(),
{
    if records.len() > 0 {
        lemma_groups_nonempty(records.drop_last());
        let groups = grouped(records.drop_last());
        lemma_group_of(groups, records.last().stamp());
    }
}

/// Records that all share one enrichment form a single run, in the order they came: a batch with no session
/// renewal in it becomes one resource block.
pub proof fn one_enrichment_is_one_run<T: Stamped>(records: Seq<T>, stamp: u64)
    requires
        records.len() > 0,
        forall|i: int| 0 <= i < records.len() ==> #[trigger] records[i].stamp() == stamp,
    ensures
        grouped(records) == seq![records],
    decreases records.len(),
{
    if records.len() == 1 {
        assert(records.drop_last() =~= Seq::<T>::empty());
        assert(grouped(records.drop_last()) =~= Seq::<Seq<T>>::empty());
        assert(group_of(Seq::<Seq<T>>::empty(), records.last().stamp()) is None);
        assert(seq![records.last()] =~= records);
        assert(Seq::<Seq<T>>::empty().push(seq![records.last()]) =~= seq![records]);
    } else {
        let init = records.drop_last();
        assert forall|i: int| 0 <= i < init.len() implies #[trigger] init[i].stamp() == stamp by {
            assert(init[i] == records[i]);
        }
        one_enrichment_is_one_run(init, stamp);
        assert(init[0] == records[0]);
        assert(init.len() > 0);
        assert(init[0].stamp() == stamp);
        assert(group_of(seq![init], stamp) == Some(0int)) by {
            assert(seq![init].drop_last() =~= Seq::<Seq<T>>::empty());
            assert(group_of(Seq::<Seq<T>>::empty(), stamp) is None);
            assert(seq![init].last() == init);
        }
        assert(init.push(records.last()) =~= records);
        assert(seq![init].update(0, init.push(records.last())) =~= seq![records]);
    }
}

/// The records among `records` stamped `stamp`, in the order they came.
pub open spec fn with_stamp<T: Stamped>(records: Seq<T>, stamp: u64) -> Seq<T>
    decreases records.len(),
{
    if records.len() == 0 {
        Seq::empty()
    } else {
        let init = with_stamp(records.drop_last(), stamp);
        if records.last().stamp() == stamp {
            init.push(records.last())
        } else {
            init
        }
    }
}

/// The distinct stamps among `records`, in the order each first appears.
pub open spec fn first_stamps<T: Stamped>(records: Seq<T>) -> Seq<u64>
    decreases records.len(),
{
    if records.len() == 0 {
        Seq::empty()
    } else {
        let init = first_stamps(records.drop_last());
        if init.contains(records.last().stamp()) {
            init
        } else {
            init.push(records.last().stamp())
        }
    }
}

/// No record carries `stamp`, so none is picked out for it.
proof fn lemma_none_with_stamp<T: Stamped>(records: Seq<T>, stamp: u64)
    requires
        forall|j: int| 0 <= j < records.len() ==> #[trigger] records[j].stamp() != stamp,
    ensures
        with_stamp(records, stamp) == Seq::<T>::empty(),
    decreases records.len(),
{
    if records.len() > 0 {
        let init = records.drop_last();
        assert forall|j: int| 0 <= j < init.len() implies #[trigger] init[j].stamp() != stamp by {
            assert(init[j] == records[j]);
        }
        lemma_none_with_stamp(init, stamp);
        assert(records[records.len() - 1].stamp() != stamp);
    }
}

/// Grouping by enrichment partitions the records: there is one run per distinct enrichment, in the order each
/// enrichment first appears, and each run holds exactly the records emitted under its enrichment, in the order they
/// came. Every record lands in exactly one run, which is why each resource block of a logs or traces payload
/// carries the records of one session and no record is lost or repeated.
pub proof fn runs_partition_the_records_by_enrichment<T: Stamped>(records: Seq<T>)
    ensures
        grouped(records).len() == first_stamps(records).len(),
        forall|i: int|
            #![trigger grouped(records)[i]]
            0 <= i < grouped(records).len() ==> grouped(records)[i].len() > 0 && grouped(records)[i][0].stamp()
                == first_stamps(records)[i] && grouped(records)[i] == with_stamp(records, first_stamps(records)[i]),
        forall|i: int, k: int|
            0 <= i < k < first_stamps(records).len() ==> #[trigger] first_stamps(records)[i] != #[trigger] first_stamps(
                records,
            )[k],
        forall|j: int| 0 <= j < records.len() ==> first_stamps(records).contains(#[trigger] records[j].stamp()),
    decreases records.len(),
{
    if records.len() > 0 {
        let init = records.drop_last();
        let r = records.last();
        let s = r.stamp();
        runs_partition_the_records_by_enrichment(init);
        let groups = grouped(init);
        let fs = first_stamps(init);
        lemma_group_of(groups, s);
        assert forall|j: int| 0 <= j < init.len() implies #[trigger] init[j] == records[j] by {}
        let g = grouped(records);
        let ft = first_stamps(records);
        match group_of(groups, s) {
            Some(i0) => {
                assert(groups[i0].len() > 0);
                assert(fs[i0] == s);
                assert(fs.contains(s));
                assert(ft == fs);
                assert forall|i: int| #![trigger g[i]] 0 <= i < g.len() implies g[i].len() > 0 && g[i][0].stamp() == ft[i]
                    && g[i] == with_stamp(records, ft[i]) by {
                    if i == i0 {
                        assert(g[i] == groups[i0].push(r));
                        assert(g[i][0] == groups[i0][0]);
                    } else {
                        assert(g[i] == groups[i]);
                        assert(fs[i] != fs[i0] || i == i0);
                        if i < i0 {
                            assert(fs[i] != fs[i0]);
                        } else {
                            assert(fs[i0] != fs[i]);
                        }
                    }
                }
                assert forall|j: int| 0 <= j < records.len() implies ft.contains(#[trigger] records[j].stamp()) by {
                    if j < init.len() {
                        assert(fs.contains(init[j].stamp()));
                    }
                }
            },
            None => {
                assert forall|k: int| 0 <= k < fs.len() implies fs[k] != s by {
                    assert(groups[k][0].stamp() == fs[k]);
                }
                assert(!fs.contains(s));
                assert(ft == fs.push(s));
                assert forall|j: int| 0 <= j < init.len() implies #[trigger] init[j].stamp() != s by {
                    assert(fs.contains(init[j].stamp()));
                    let k = choose|k: int| 0 <= k < fs.len() && fs[k] == init[j].stamp();
                }
                lemma_none_with_stamp(init, s);
                assert forall|i: int| #![trigger g[i]] 0 <= i < g.len() implies g[i].len() > 0 && g[i][0].stamp() == ft[i]
                    && g[i] == with_stamp(records, ft[i]) by {
                    if i == groups.len() {
                        assert(g[i] == seq![r]);
                        assert(with_stamp(init, s) =~= Seq::<T>::empty());
                        assert(Seq::<T>::empty().push(r) =~= seq![r]);
                    } else {
                        assert(g[i] == groups[i]);
                        assert(fs[i] != s);
                    }
                }
                assert forall|i: int, k: int| 0 <= i < k < ft.len() implies #[trigger] ft[i] != #[trigger] ft[k] by {
                    if k == fs.len() {
                        assert(fs[i] != s);
                    } else {
                        assert(fs[i] != fs[k]);
                    }
                }
                assert forall|j: int| 0 <= j < records.len() implies ft.contains(#[trigger] records[j].stamp()) by {
                    if j < init.len() {
                        assert(fs.contains(init[j].stamp()));
                        let k = choose|k: int| 0 <= k < fs.len() && fs[k] == init[j].stamp();
                        assert(ft[k] == fs[k]);
                    } else {
                        assert(ft[fs.len() as int] == s);
                    }
                }
            },
        }
    }
}

/// Splits records into runs sharing one enrichment; see [`grouped`].
pub fn group_by_enrichment<T: Stamped>(records: Vec<T>) -> (groups: Vec<Vec<T>>)
    ensures
        runs_view(groups@) == grouped(records@),
{
    let ghost all = records@;
    assert(all.len() == records.len());
    let mut rest = records;
    let mut groups: Vec<Vec<T>> = Vec::new();
    let mut n: usize = 0;
    assert(all.subrange(0, 0) =~= Seq::<T>::empty());
    assert(runs_view(groups@) =~= Seq::<Seq<T>>::empty());
    while rest.len() > 0
        invariant
            all.len() <= usize::MAX,
            n <= all.len(),
            rest@ == all.subrange(n as int, all.len() as int),
            runs_view(groups@) == grouped(all.subrange(0, n as int)),
        decreases rest@.len(),
    {
        proof {
            lemma_groups_nonempty(all.subrange(0, n as int));
        }
        let ghost before = runs_view(groups@);
        let record = rest.remove(0);
        let stamp = record.stamp_of();
        let ghost prefix = all.subrange(0, n + 1);
        assert(prefix.drop_last() =~= all.subrange(0, n as int));
        assert(prefix.last() == record);
        proof {
            lemma_group_of(before, stamp);
        }
        let mut j: usize = 0;
        let mut found = false;
        while j < groups.len()
            invariant
                before == runs_view(groups@),
                forall|i: int| 0 <= i < before.len() ==> #[trigger] before[i].len() > 0,
                j <= groups@.len(),
                forall|k: int| 0 <= k < j ==> before[k][0].stamp() != stamp,
                found ==> j < groups@.len() && before[j as int][0].stamp() == stamp,
        ensures
            found ==> j < groups@.len() && before[j as int][0].stamp() == stamp,
            !found ==> j == groups@.len(),
            forall|k: int| 0 <= k < j ==> before[k][0].stamp() != stamp,
            decreases groups@.len() - j + (if found {
                0int
            } else {
                1int
            }),
        {
            assert(before[j as int] == groups@[j as int]@);
            assert(before[j as int].len() > 0);
            if groups[j][0].stamp_of() == stamp {
                found = true;
                break;
            }
            j += 1;
        }
        if found {
            assert(group_of(before, stamp) == Some(j as int));
            let mut run = groups.remove(j);
            run.push(record);
            groups.insert(j, run);
            assert(runs_view(groups@) =~= before.update(j as int, before[j as int].push(record)));
        } else {
            assert(group_of(before, stamp) is None);
            let mut run: Vec<T> = Vec::new();
            run.push(record);
            groups.push(run);
            assert(run@ =~= seq![record]);
            assert(runs_view(groups@) =~= before.push(seq![record]));
        }
        n += 1;
        assert(rest@ =~= all.subrange(n as int, all.len() as int));
    }
    assert(all.subrange(0, all.len() as int) =~= all);
    groups
}

/// The trace and span ids a log record carries, when it was emitted inside a span.
pub open spec fn log_ids_view(r: LogRecord) -> Seq<(Seq<char>, JsonView)> {
    match (r.trace_id, r.span_id) {
        (Some(t), Some(s)) => seq![
            ("traceId"@, JsonView::String(hex_text(t.0@))),
            ("spanId"@, JsonView::String(hex_text(s.0@))),
        ],
        _ => Seq::empty(),
    }
}

/// One log record as an OTLP `LogRecord`. The ids are left out entirely, rather than sent empty, when the record
/// was emitted outside a span: an empty string there is a malformed identifier, not an absent one.
pub open spec fn log_view(r: LogRecord) -> JsonView {
    obj(
        seq![
            ("timeUnixNano"@, big(r.time_unix_nano)),
            ("observedTimeUnixNano"@, big(r.time_unix_nano)),
            ("severityNumber"@, JsonView::Number(severity(r.level) as int)),
            ("severityText"@, JsonView::String(severity_label(r.level))),
            ("body"@, one("stringValue"@, JsonView::String(r.body@))),
            ("attributes"@, key_values_view(r.fields@)),
        ] + log_ids_view(r),
    )
}

/// Encodes one log record.
pub fn log_record(r: &LogRecord) -> (j: Json)
    ensures
        jv(j) == log_view(*r),
{
    proof {
        reveal_strlit("timeUnixNano");
        reveal_strlit("observedTimeUnixNano");
        reveal_strlit("severityNumber");
        reveal_strlit("severityText");
        reveal_strlit("body");
        reveal_strlit("stringValue");
        reveal_strlit("attributes");
        reveal_strlit("traceId");
        reveal_strlit("spanId");
    }
    let mut members = empty_object();
    push_member(&mut members, "timeUnixNano", big_int(r.time_unix_nano));
    push_member(&mut members, "observedTimeUnixNano", big_int(r.time_unix_nano));
    push_member(&mut members, "severityNumber", Json::Number(r.level.severity_number() as i64));
    push_member(&mut members, "severityText", string(r.level.severity_text()));
    push_member(&mut members, "body", single("stringValue", string(r.body.as_str())));
    push_member(&mut members, "attributes", key_values(&r.fields));
    let ghost head = jv_members(members@);
    match (&r.trace_id, &r.span_id) {
        (Some(t), Some(sp)) => {
            push_member(&mut members, "traceId", Json::String(t.to_hex()));
            push_member(&mut members, "spanId", Json::String(sp.to_hex()));
        },
        _ => {},
    }
    assert(jv_members(members@) =~= seq![
        ("timeUnixNano"@, big(r.time_unix_nano)),
        ("observedTimeUnixNano"@, big(r.time_unix_nano)),
        ("severityNumber"@, JsonView::Number(severity(r.level) as int)),
        ("severityText"@, JsonView::String(severity_label(r.level))),
        ("body"@, one("stringValue"@, JsonView::String(r.body@))),
        ("attributes"@, key_values_view(r.fields@)),
    ] + log_ids_view(*r));
    Json::Object(members)
}

/// One run of log records under its enrichment: the resource block, then the records.
pub open spec fn log_block_view(run: Seq<LogRecord>, base: Seq<(String, Value)>) -> JsonView {
    obj(
        seq![
            ("resource"@, resource_view(base, run[0].enrichment.fields@)),
            ("scopeLogs"@, JsonView::Array(seq![obj(seq![
                ("scope"@, scope_view()),
                ("logRecords"@, JsonView::Array(run.map_values(|r: LogRecord| log_view(r)))),
            ])])),
        ],
    )
}

/// The `/v1/logs` payload for `records`, under the configuration's resource attributes `base`.
pub open spec fn logs_view(records: Seq<LogRecord>, base: Seq<(String, Value)>) -> JsonView {
    one(
        "resourceLogs"@,
        JsonView::Array(grouped(records).map_values(|run: Seq<LogRecord>| log_block_view(run, base))),
    )
}

/// Builds the `/v1/logs` payload.
pub fn logs(records: Vec<LogRecord>, base: &Vec<(String, Value)>) -> (j: Json)
    ensures
        jv(j) == logs_view(records@, base@),
{
    proof {
        reveal_strlit("resource");
        reveal_strlit("scopeLogs");
        reveal_strlit("scope");
        reveal_strlit("logRecords");
        reveal_strlit("resourceLogs");
    }
    let ghost all = records@;
    let groups = group_by_enrichment(records);
    let ghost runs = runs_view(groups@);
    proof {
        lemma_groups_nonempty(all);
    }
    let mut blocks = empty_array();
    let mut g: usize = 0;
    while g < groups.len()
        invariant
            runs == runs_view(groups@),
            runs == grouped(all),
            forall|i: int| 0 <= i < runs.len() ==> #[trigger] runs[i].len() > 0,
            g <= groups@.len(),
            jv_items(blocks@) == runs.subrange(0, g as int).map_values(
                |run: Seq<LogRecord>| log_block_view(run, base@),
            ),
        decreases groups@.len() - g,
    {
        let run = &groups[g];
        assert(run@ == runs[g as int]);
        let mut encoded = empty_array();
        let mut i: usize = 0;
        while i < run.len()
            invariant
                i <= run@.len(),
                jv_items(encoded@) == run@.subrange(0, i as int).map_values(|r: LogRecord| log_view(r)),
            decreases run@.len() - i,
        {
            let item = log_record(&run[i]);
            push_item(&mut encoded, item);
            assert(run@.subrange(0, i + 1).map_values(|r: LogRecord| log_view(r)) =~= run@.subrange(
                0,
                i as int,
            ).map_values(|r: LogRecord| log_view(r)).push(log_view(run@[i as int])));
            i += 1;
        }
        assert(run@.subrange(0, run@.len() as int) =~= run@);
        let ghost records_view = run@.map_values(|r: LogRecord| log_view(r));
        let mut scope_block = empty_object();
        push_member(&mut scope_block, "scope", scope());
        push_member(&mut scope_block, "logRecords", Json::Array(encoded));
        assert(jv_members(scope_block@) =~= seq![
            ("scope"@, scope_view()),
            ("logRecords"@, JsonView::Array(records_view)),
        ]);
        let mut scopes = empty_array();
        push_item(&mut scopes, Json::Object(scope_block));
        let ghost scope_view_block = obj(seq![("scope"@, scope_view()), ("logRecords"@, JsonView::Array(records_view))]);
        assert(jv_items(scopes@) =~= seq![scope_view_block]);
        let mut block = empty_object();
        push_member(&mut block, "resource", resource(base, &run[0].enrichment.fields));
        push_member(&mut block, "scopeLogs", Json::Array(scopes));
        let ghost expected = log_block_view(runs[g as int], base@);
        assert(jv_members(block@) =~= seq![
            ("resource"@, resource_view(base@, run@[0].enrichment.fields@)),
            ("scopeLogs"@, JsonView::Array(seq![scope_view_block])),
        ]);
        assert(jv(Json::Object(block)) == expected);
        push_item(&mut blocks, Json::Object(block));
        assert(runs.subrange(0, g + 1).map_values(|run: Seq<LogRecord>| log_block_view(run, base@))
            =~= runs.subrange(0, g as int).map_values(|run: Seq<LogRecord>| log_block_view(run, base@)).push(
            expected,
        ));
        g += 1;
    }
    assert(runs.subrange(0, runs.len() as int) =~= runs);
    single("resourceLogs", Json::Array(blocks))
}

/// `SPAN_KIND_INTERNAL`, the only kind of span produced.
pub const SPAN_KIND_INTERNAL: i64 = 1;

/// `STATUS_CODE_ERROR`.
pub const STATUS_CODE_ERROR: i64 = 2;

/// A span event as an OTLP `Event`.
pub open spec fn event_view(e: SpanEvent) -> JsonView {
    obj(
        seq![
            ("timeUnixNano"@, big(e.time_unix_nano)),
            ("name"@, JsonView::String(e.name@)),
            ("attributes"@, key_values_view(e.attributes@)),
        ],
    )
}

/// A linked span as an OTLP `Link`.
pub open spec fn link_view(c: SpanContext) -> JsonView {
    obj(
        seq![
            ("traceId"@, JsonView::String(hex_text(c.trace_bytes()))),
            ("spanId"@, JsonView::String(hex_text(c.span_bytes()))),
        ],
    )
}

/// The members a span carries beyond the ones every span has: its parent when it has one, its links when there
/// are any, and its status when it failed — an unset status is encoded as no status at all.
pub open spec fn span_extras_view(r: SpanRecord) -> Seq<(Seq<char>, JsonView)> {
    let parent: Seq<(Seq<char>, JsonView)> = match r.parent_span_id {
        Some(p) => seq![("parentSpanId"@, JsonView::String(hex_text(p.0@)))],
        None => Seq::empty(),
    };
    let links: Seq<(Seq<char>, JsonView)> = if r.links@.len() > 0 {
        seq![("links"@, JsonView::Array(r.links@.map_values(|c: SpanContext| link_view(c))))]
    } else {
        Seq::empty()
    };
    let status: Seq<(Seq<char>, JsonView)> = match r.status {
        Status::Error(message) => seq![
            ("status"@, obj(
                seq![
                    ("code"@, JsonView::Number(STATUS_CODE_ERROR as int)),
                    ("message"@, JsonView::String(message@)),
                ],
            )),
        ],
        Status::Unset => Seq::empty(),
    };
    parent + links + status
}

/// One finished span as an OTLP `Span`.
pub open spec fn span_view(r: SpanRecord) -> JsonView {
    obj(
        seq![
            ("traceId"@, JsonView::String(hex_text(r.trace_id.0@))),
            ("spanId"@, JsonView::String(hex_text(r.span_id.0@))),
            ("name"@, JsonView::String(r.name@)),
            ("kind"@, JsonView::Number(SPAN_KIND_INTERNAL as int)),
            ("startTimeUnixNano"@, big(r.start_unix_nano)),
            ("endTimeUnixNano"@, big(r.end_unix_nano)),
            ("attributes"@, key_values_view(r.attributes@)),
            ("events"@, JsonView::Array(r.events@.map_values(|e: SpanEvent| event_view(e)))),
        ] + span_extras_view(r),
    )
}

/// Encodes one span event.
fn span_event(e: &SpanEvent) -> (j: Json)
    ensures
        jv(j) == event_view(*e),
{
    proof {
        reveal_strlit("timeUnixNano");
        reveal_strlit("name");
        reveal_strlit("attributes");
    }
    let mut members = empty_object();
    push_member(&mut members, "timeUnixNano", big_int(e.time_unix_nano));
    push_member(&mut members, "name", string(e.name.as_str()));
    push_member(&mut members, "attributes", key_values(&e.attributes));
    assert(jv_members(members@) =~= seq![
        ("timeUnixNano"@, big(e.time_unix_nano)),
        ("name"@, JsonView::String(e.name@)),
        ("attributes"@, key_values_view(e.attributes@)),
    ]);
    Json::Object(members)
}

/// Encodes one link.
fn span_link(c: &SpanContext) -> (j: Json)
    ensures
        jv(j) == link_view(*c),
{
    proof {
        reveal_strlit("traceId");
        reveal_strlit("spanId");
    }
    let mut members = empty_object();
    push_member(&mut members, "traceId", Json::String(c.trace_id_hex()));
    push_member(&mut members, "spanId", Json::String(c.span_id_hex()));
    assert(jv_members(members@) =~= seq![
        ("traceId"@, JsonView::String(hex_text(c.trace_bytes()))),
        ("spanId"@, JsonView::String(hex_text(c.span_bytes()))),
    ]);
    Json::Object(members)
}

/// Encodes one finished span.
pub fn span(r: &SpanRecord) -> (j: Json)
    ensures
        jv(j) == span_view(*r),
{
    proof {
        reveal_strlit("traceId");
        reveal_strlit("spanId");
        reveal_strlit("name");
        reveal_strlit("kind");
        reveal_strlit("startTimeUnixNano");
        reveal_strlit("endTimeUnixNano");
        reveal_strlit("attributes");
        reveal_strlit("events");
        reveal_strlit("parentSpanId");
        reveal_strlit("links");
        reveal_strlit("status");
        reveal_strlit("code");
        reveal_strlit("message");
    }
    let mut events = empty_array();
    let mut i: usize = 0;
    while i < r.events.len()
        invariant
            i <= r.events@.len(),
            jv_items(events@) == r.events@.subrange(0, i as int).map_values(|e: SpanEvent| event_view(e)),
        decreases r.events@.len() - i,
    {
        let item = span_event(&r.events[i]);
        push_item(&mut events, item);
        assert(r.events@.subrange(0, i + 1).map_values(|e: SpanEvent| event_view(e)) =~= r.events@.subrange(
            0,
            i as int,
        ).map_values(|e: SpanEvent| event_view(e)).push(event_view(r.events@[i as int])));
        i += 1;
    }
    assert(r.events@.subrange(0, r.events@.len() as int) =~= r.events@);
    let mut members = empty_object();
    push_member(&mut members, "traceId", Json::String(r.trace_id.to_hex()));
    push_member(&mut members, "spanId", Json::String(r.span_id.to_hex()));
    push_member(&mut members, "name", string(r.name.as_str()));
    push_member(&mut members, "kind", Json::Number(SPAN_KIND_INTERNAL));
    push_member(&mut members, "startTimeUnixNano", big_int(r.start_unix_nano));
    push_member(&mut members, "endTimeUnixNano", big_int(r.end_unix_nano));
    push_member(&mut members, "attributes", key_values(&r.attributes));
    push_member(&mut members, "events", Json::Array(events));
    let ghost head = jv_members(members@);
    assert(head =~= seq![
        ("traceId"@, JsonView::String(hex_text(r.trace_id.0@))),
        ("spanId"@, JsonView::String(hex_text(r.span_id.0@))),
        ("name"@, JsonView::String(r.name@)),
        ("kind"@, JsonView::Number(SPAN_KIND_INTERNAL as int)),
        ("startTimeUnixNano"@, big(r.start_unix_nano)),
        ("endTimeUnixNano"@, big(r.end_unix_nano)),
        ("attributes"@, key_values_view(r.attributes@)),
        ("events"@, JsonView::Array(r.events@.map_values(|e: SpanEvent| event_view(e)))),
    ]);
    match &r.parent_span_id {
        Some(p) => {
            push_member(&mut members, "parentSpanId", Json::String(p.to_hex()));
        },
        None => {},
    }
    let ghost with_parent = jv_members(members@);
    if r.links.len() > 0 {
        let mut links = empty_array();
        let mut k: usize = 0;
        while k < r.links.len()
            invariant
                k <= r.links@.len(),
                jv_items(links@) == r.links@.subrange(0, k as int).map_values(|c: SpanContext| link_view(c)),
            decreases r.links@.len() - k,
        {
            let item = span_link(&r.links[k]);
            push_item(&mut links, item);
            assert(r.links@.subrange(0, k + 1).map_values(|c: SpanContext| link_view(c)) =~= r.links@.subrange(
                0,
                k as int,
            ).map_values(|c: SpanContext| link_view(c)).push(link_view(r.links@[k as int])));
            k += 1;
        }
        assert(r.links@.subrange(0, r.links@.len() as int) =~= r.links@);
        push_member(&mut members, "links", Json::Array(links));
    }
    let ghost with_links = jv_members(members@);
    match &r.status {
        Status::Error(message) => {
            let mut status = empty_object();
            push_member(&mut status, "code", Json::Number(STATUS_CODE_ERROR));
            push_member(&mut status, "message", string(message.as_str()));
            assert(jv_members(status@) =~= seq![
                ("code"@, JsonView::Number(STATUS_CODE_ERROR as int)),
                ("message"@, JsonView::String(message@)),
            ]);
            push_member(&mut members, "status", Json::Object(status));
        },
        Status::Unset => {},
    }
    assert(jv_members(members@) =~= head + span_extras_view(*r));
    Json::Object(members)
}

/// One run of spans under its enrichment: the resource block, then the spans.
pub open spec fn span_block_view(run: Seq<SpanRecord>, base: Seq<(String, Value)>) -> JsonView {
    obj(
        seq![
            ("resource"@, resource_view(base, run[0].enrichment.fields@)),
            ("scopeSpans"@, JsonView::Array(seq![obj(seq![
                ("scope"@, scope_view()),
                ("spans"@, JsonView::Array(run.map_values(|r: SpanRecord| span_view(r)))),
            ])])),
        ],
    )
}

/// The `/v1/traces` payload for `records`, under the configuration's resource attributes `base`.
pub open spec fn traces_view(records: Seq<SpanRecord>, base: Seq<(String, Value)>) -> JsonView {
    one(
        "resourceSpans"@,
        JsonView::Array(grouped(records).map_values(|run: Seq<SpanRecord>| span_block_view(run, base))),
    )
}

/// Builds the `/v1/traces` payload.
pub fn traces(records: Vec<SpanRecord>, base: &Vec<(String, Value)>) -> (j: Json)
    ensures
        jv(j) == traces_view(records@, base@),
{
    proof {
        reveal_strlit("resource");
        reveal_strlit("scopeSpans");
        reveal_strlit("scope");
        reveal_strlit("spans");
        reveal_strlit("resourceSpans");
    }
    let ghost all = records@;
    let groups = group_by_enrichment(records);
    let ghost runs = runs_view(groups@);
    proof {
        lemma_groups_nonempty(all);
    }
    let mut blocks = empty_array();
    let mut g: usize = 0;
    while g < groups.len()
        invariant
            runs == runs_view(groups@),
            runs == grouped(all),
            forall|i: int| 0 <= i < runs.len() ==> #[trigger] runs[i].len() > 0,
            g <= groups@.len(),
            jv_items(blocks@) == runs.subrange(0, g as int).map_values(
                |run: Seq<SpanRecord>| span_block_view(run, base@),
            ),
        decreases groups@.len() - g,
    {
        let run = &groups[g];
        assert(run@ == runs[g as int]);
        let mut encoded = empty_array();
        let mut i: usize = 0;
        while i < run.len()
            invariant
                i <= run@.len(),
                jv_items(encoded@) == run@.subrange(0, i as int).map_values(|r: SpanRecord| span_view(r)),
            decreases run@.len() - i,
        {
            let item = span(&run[i]);
            push_item(&mut encoded, item);
            assert(run@.subrange(0, i + 1).map_values(|r: SpanRecord| span_view(r)) =~= run@.subrange(
                0,
                i as int,
            ).map_values(|r: SpanRecord| span_view(r)).push(span_view(run@[i as int])));
            i += 1;
        }
        assert(run@.subrange(0, run@.len() as int) =~= run@);
        let ghost records_view = run@.map_values(|r: SpanRecord| span_view(r));
        let mut scope_block = empty_object();
        push_member(&mut scope_block, "scope", scope());
        push_member(&mut scope_block, "spans", Json::Array(encoded));
        assert(jv_members(scope_block@) =~= seq![
            ("scope"@, scope_view()),
            ("spans"@, JsonView::Array(records_view)),
        ]);
        let mut scopes = empty_array();
        push_item(&mut scopes, Json::Object(scope_block));
        let ghost scope_view_block = obj(seq![("scope"@, scope_view()), ("spans"@, JsonView::Array(records_view))]);
        assert(jv_items(scopes@) =~= seq![scope_view_block]);
        let mut block = empty_object();
        push_member(&mut block, "resource", resource(base, &run[0].enrichment.fields));
        push_member(&mut block, "scopeSpans", Json::Array(scopes));
        let ghost expected = span_block_view(runs[g as int], base@);
        assert(jv_members(block@) =~= seq![
            ("resource"@, resource_view(base@, run@[0].enrichment.fields@)),
            ("scopeSpans"@, JsonView::Array(seq![scope_view_block])),
        ]);
        assert(jv(Json::Object(block)) == expected);
        push_item(&mut blocks, Json::Object(block));
        assert(runs.subrange(0, g + 1).map_values(|run: Seq<SpanRecord>| span_block_view(run, base@))
            =~= runs.subrange(0, g as int).map_values(|run: Seq<SpanRecord>| span_block_view(run, base@)).push(
            expected,
        ));
        g += 1;
    }
    assert(runs.subrange(0, runs.len() as int) =~= runs);
    single("resourceSpans", Json::Array(blocks))
}

/// `AGGREGATION_TEMPORALITY_CUMULATIVE`: values are running totals, so a dropped export costs nothing — the next
/// successful one carries the full total.
pub const CUMULATIVE: i64 = 2;

/// A metric's tag set as an OTLP `KeyValue` list of string values.
pub open spec fn tag_values_view(tags: Seq<(String, String)>) -> JsonView {
    JsonView::Array(
        tags.map_values(
            |t: (String, String)|
                obj(seq![("key"@, JsonView::String(t.0@)), ("value"@, one("stringValue"@, JsonView::String(t.1@)))]),
        ),
    )
}

/// Encodes a metric's tag set.
fn tag_values(tags: &Vec<(String, String)>) -> (j: Json)
    ensures
        jv(j) == tag_values_view(tags@),
{
    proof {
        reveal_strlit("key");
        reveal_strlit("value");
        reveal_strlit("stringValue");
    }
    let mut out = empty_array();
    let mut i: usize = 0;
    while i < tags.len()
        invariant
            i <= tags@.len(),
            jv_items(out@) == tags@.subrange(0, i as int).map_values(
                |t: (String, String)|
                    obj(seq![("key"@, JsonView::String(t.0@)), ("value"@, one("stringValue"@, JsonView::String(t.1@)))]),
            ),
        decreases tags@.len() - i,
    {
        let mut members = empty_object();
        push_member(&mut members, "key", string(tags[i].0.as_str()));
        push_member(&mut members, "value", single("stringValue", string(tags[i].1.as_str())));
        let ghost t = tags@[i as int];
        assert(jv_members(members@) =~= seq![("key"@, JsonView::String(t.0@)), ("value"@, one("stringValue"@, JsonView::String(t.1@)))]);
        push_item(&mut out, Json::Object(members));
        assert(tags@.subrange(0, i + 1).map_values(
            |t: (String, String)|
                obj(seq![("key"@, JsonView::String(t.0@)), ("value"@, one("stringValue"@, JsonView::String(t.1@)))]),
        ) =~= tags@.subrange(0, i as int).map_values(
            |t: (String, String)|
                obj(seq![("key"@, JsonView::String(t.0@)), ("value"@, one("stringValue"@, JsonView::String(t.1@)))]),
        ).push(obj(seq![("key"@, JsonView::String(t.0@)), ("value"@, one("stringValue"@, JsonView::String(t.1@)))])));
        i += 1;
    }
    assert(tags@.subrange(0, tags@.len() as int) =~= tags@);
    Json::Array(out)
}

/// One counter series as an OTLP `NumberDataPoint`.
pub open spec fn sum_point_view(p: SumPoint, start: u64, now: u64) -> JsonView {
    obj(
        seq![
            ("attributes"@, tag_values_view(p.tags@)),
            ("startTimeUnixNano"@, big(start)),
            ("timeUnixNano"@, big(now)),
            ("asInt"@, JsonView::String(decimal(p.value as nat))),
        ],
    )
}

/// One gauge series as an OTLP `NumberDataPoint`. A gauge is a last-value sample, so it has no start time.
pub open spec fn gauge_point_view(p: GaugePoint, now: u64) -> JsonView {
    obj(
        seq![
            ("attributes"@, tag_values_view(p.tags@)),
            ("timeUnixNano"@, big(now)),
            ("asDouble"@, JsonView::Double(p.bits)),
        ],
    )
}

/// One histogram series as an OTLP `HistogramDataPoint`, under the instrument's bucket bounds.
pub open spec fn histogram_point_view(p: HistogramPoint, bounds: Seq<u64>, start: u64, now: u64) -> JsonView {
    obj(
        seq![
            ("attributes"@, tag_values_view(p.tags@)),
            ("startTimeUnixNano"@, big(start)),
            ("timeUnixNano"@, big(now)),
            ("count"@, big(p.count)),
            ("sum"@, JsonView::Double(p.sum_bits)),
            ("explicitBounds"@, JsonView::Array(bounds.map_values(|b: u64| JsonView::Double(b)))),
            ("bucketCounts"@, JsonView::Array(p.bucket_counts@.map_values(|c: u64| big(c)))),
        ],
    )
}

/// The members a metric's data contributes: a cumulative monotonic sum for a counter, a gauge, or a cumulative
/// histogram.
pub open spec fn metric_data_view(data: MetricData, start: u64, now: u64) -> (Seq<char>, JsonView) {
    match data {
        MetricData::Sum(points) => (
            "sum"@,
            obj(
                seq![
                    ("aggregationTemporality"@, JsonView::Number(CUMULATIVE as int)),
                    ("isMonotonic"@, JsonView::Bool(true)),
                    ("dataPoints"@, JsonView::Array(points@.map_values(|p: SumPoint| sum_point_view(p, start, now)))),
                ],
            ),
        ),
        MetricData::Gauge(points) => (
            "gauge"@,
            one("dataPoints"@, JsonView::Array(points@.map_values(|p: GaugePoint| gauge_point_view(p, now)))),
        ),
        MetricData::Histogram { bounds_bits, points } => (
            "histogram"@,
            obj(
                seq![
                    ("aggregationTemporality"@, JsonView::Number(CUMULATIVE as int)),
                    ("dataPoints"@, JsonView::Array(points@.map_values(
                        |p: HistogramPoint| histogram_point_view(p, bounds_bits@, start, now),
                    ))),
                ],
            ),
        ),
    }
}

/// One instrument's readings as an OTLP `Metric`.
pub open spec fn metric_view(s: MetricSnapshot, start: u64, now: u64) -> JsonView {
    obj(seq![("name"@, JsonView::String(s.name@)), metric_data_view(s.data, start, now)])
}

/// Encodes a list of 64-bit counts as decimal strings.
fn big_ints(values: &Vec<u64>) -> (j: Json)
    ensures
        jv(j) == JsonView::Array(values@.map_values(|c: u64| big(c))),
{
    let mut out = empty_array();
    let mut i: usize = 0;
    while i < values.len()
        invariant
            i <= values@.len(),
            jv_items(out@) == values@.subrange(0, i as int).map_values(|c: u64| big(c)),
        decreases values@.len() - i,
    {
        push_item(&mut out, big_int(values[i]));
        assert(values@.subrange(0, i + 1).map_values(|c: u64| big(c)) =~= values@.subrange(0, i as int).map_values(
            |c: u64| big(c),
        ).push(big(values@[i as int])));
        i += 1;
    }
    assert(values@.subrange(0, values@.len() as int) =~= values@);
    Json::Array(out)
}

/// Encodes a list of `f64` bit patterns as doubles.
fn doubles(values: &Vec<u64>) -> (j: Json)
    ensures
        jv(j) == JsonView::Array(values@.map_values(|b: u64| JsonView::Double(b))),
{
    let mut out = empty_array();
    let mut i: usize = 0;
    while i < values.len()
        invariant
            i <= values@.len(),
            jv_items(out@) == values@.subrange(0, i as int).map_values(|b: u64| JsonView::Double(b)),
        decreases values@.len() - i,
    {
        push_item(&mut out, Json::Double(values[i]));
        assert(values@.subrange(0, i + 1).map_values(|b: u64| JsonView::Double(b)) =~= values@.subrange(
            0,
            i as int,
        ).map_values(|b: u64| JsonView::Double(b)).push(JsonView::Double(values@[i as int])));
        i += 1;
    }
    assert(values@.subrange(0, values@.len() as int) =~= values@);
    Json::Array(out)
}

/// Encodes the member a metric's data contributes.
fn metric_data(data_in: &MetricData, start: u64, now: u64) -> (r: (&'static str, Json))
    ensures
        (r.0@, jv(r.1)) == metric_data_view(*data_in, start, now),
{
    proof {
        reveal_strlit("name");
        reveal_strlit("sum");
        reveal_strlit("gauge");
        reveal_strlit("histogram");
        reveal_strlit("aggregationTemporality");
        reveal_strlit("isMonotonic");
        reveal_strlit("dataPoints");
        reveal_strlit("attributes");
        reveal_strlit("startTimeUnixNano");
        reveal_strlit("timeUnixNano");
        reveal_strlit("asInt");
        reveal_strlit("asDouble");
        reveal_strlit("count");
        reveal_strlit("explicitBounds");
        reveal_strlit("bucketCounts");
    }
    let mut data = empty_object();
    match data_in {
        MetricData::Sum(points) => {
            let mut encoded = empty_array();
            let mut i: usize = 0;
            while i < points.len()
                invariant
                    i <= points@.len(),
                    jv_items(encoded@) == points@.subrange(0, i as int).map_values(
                        |p: SumPoint| sum_point_view(p, start, now),
                    ),
                decreases points@.len() - i,
            {
                let p = &points[i];
                let mut members = empty_object();
                push_member(&mut members, "attributes", tag_values(&p.tags));
                push_member(&mut members, "startTimeUnixNano", big_int(start));
                push_member(&mut members, "timeUnixNano", big_int(now));
                push_member(&mut members, "asInt", big_int(p.value));
                assert(jv_members(members@) =~= seq![
                    ("attributes"@, tag_values_view(p.tags@)),
                    ("startTimeUnixNano"@, big(start)),
                    ("timeUnixNano"@, big(now)),
                    ("asInt"@, JsonView::String(decimal(p.value as nat))),
                ]);
                push_item(&mut encoded, Json::Object(members));
                assert(points@.subrange(0, i + 1).map_values(|p: SumPoint| sum_point_view(p, start, now))
                    =~= points@.subrange(0, i as int).map_values(|p: SumPoint| sum_point_view(p, start, now)).push(
                    sum_point_view(points@[i as int], start, now),
                ));
                i += 1;
            }
            assert(points@.subrange(0, points@.len() as int) =~= points@);
            push_member(&mut data, "aggregationTemporality", Json::Number(CUMULATIVE));
            push_member(&mut data, "isMonotonic", Json::Bool(true));
            push_member(&mut data, "dataPoints", Json::Array(encoded));
            assert(jv_members(data@) =~= seq![
                ("aggregationTemporality"@, JsonView::Number(CUMULATIVE as int)),
                ("isMonotonic"@, JsonView::Bool(true)),
                ("dataPoints"@, JsonView::Array(points@.map_values(|p: SumPoint| sum_point_view(p, start, now)))),
            ]);
            ("sum", Json::Object(data))
        },
        MetricData::Gauge(points) => {
            let mut encoded = empty_array();
            let mut i: usize = 0;
            while i < points.len()
                invariant
                    i <= points@.len(),
                    jv_items(encoded@) == points@.subrange(0, i as int).map_values(
                        |p: GaugePoint| gauge_point_view(p, now),
                    ),
                decreases points@.len() - i,
            {
                let p = &points[i];
                let mut members = empty_object();
                push_member(&mut members, "attributes", tag_values(&p.tags));
                push_member(&mut members, "timeUnixNano", big_int(now));
                push_member(&mut members, "asDouble", Json::Double(p.bits));
                assert(jv_members(members@) =~= seq![
                    ("attributes"@, tag_values_view(p.tags@)),
                    ("timeUnixNano"@, big(now)),
                    ("asDouble"@, JsonView::Double(p.bits)),
                ]);
                push_item(&mut encoded, Json::Object(members));
                assert(points@.subrange(0, i + 1).map_values(|p: GaugePoint| gauge_point_view(p, now))
                    =~= points@.subrange(0, i as int).map_values(|p: GaugePoint| gauge_point_view(p, now)).push(
                    gauge_point_view(points@[i as int], now),
                ));
                i += 1;
            }
            assert(points@.subrange(0, points@.len() as int) =~= points@);
            push_member(&mut data, "dataPoints", Json::Array(encoded));
            assert(jv_members(data@) =~= seq![("dataPoints"@, JsonView::Array(points@.map_values(|p: GaugePoint| gauge_point_view(p, now))))]);
            ("gauge", Json::Object(data))
        },
        MetricData::Histogram { bounds_bits, points } => {
            let mut encoded = empty_array();
            let mut i: usize = 0;
            while i < points.len()
                invariant
                    i <= points@.len(),
                    jv_items(encoded@) == points@.subrange(0, i as int).map_values(
                        |p: HistogramPoint| histogram_point_view(p, bounds_bits@, start, now),
                    ),
                decreases points@.len() - i,
            {
                let p = &points[i];
                let mut members = empty_object();
                push_member(&mut members, "attributes", tag_values(&p.tags));
                push_member(&mut members, "startTimeUnixNano", big_int(start));
                push_member(&mut members, "timeUnixNano", big_int(now));
                push_member(&mut members, "count", big_int(p.count));
                push_member(&mut members, "sum", Json::Double(p.sum_bits));
                push_member(&mut members, "explicitBounds", doubles(bounds_bits));
                push_member(&mut members, "bucketCounts", big_ints(&p.bucket_counts));
                assert(jv_members(members@) =~= seq![
                    ("attributes"@, tag_values_view(p.tags@)),
                    ("startTimeUnixNano"@, big(start)),
                    ("timeUnixNano"@, big(now)),
                    ("count"@, big(p.count)),
                    ("sum"@, JsonView::Double(p.sum_bits)),
                    ("explicitBounds"@, JsonView::Array(bounds_bits@.map_values(|b: u64| JsonView::Double(b)))),
                    ("bucketCounts"@, JsonView::Array(p.bucket_counts@.map_values(|c: u64| big(c)))),
                ]);
                push_item(&mut encoded, Json::Object(members));
                assert(points@.subrange(0, i + 1).map_values(
                    |p: HistogramPoint| histogram_point_view(p, bounds_bits@, start, now),
                ) =~= points@.subrange(0, i as int).map_values(
                    |p: HistogramPoint| histogram_point_view(p, bounds_bits@, start, now),
                ).push(histogram_point_view(points@[i as int], bounds_bits@, start, now)));
                i += 1;
            }
            assert(points@.subrange(0, points@.len() as int) =~= points@);
            push_member(&mut data, "aggregationTemporality", Json::Number(CUMULATIVE));
            push_member(&mut data, "dataPoints", Json::Array(encoded));
            assert(jv_members(data@) =~= seq![
                ("aggregationTemporality"@, JsonView::Number(CUMULATIVE as int)),
                ("dataPoints"@, JsonView::Array(points@.map_values(
                    |p: HistogramPoint| histogram_point_view(p, bounds_bits@, start, now),
                ))),
            ]);
            ("histogram", Json::Object(data))
        },
    }
}

/// Encodes one instrument's readings.
pub fn metric(s: &MetricSnapshot, start: u64, now: u64) -> (j: Json)
    ensures
        jv(j) == metric_view(*s, start, now),
{
    proof {
        reveal_strlit("name");
    }
    let (key, payload) = metric_data(&s.data, start, now);
    let mut members = empty_object();
    push_member(&mut members, "name", string(s.name.as_str()));
    push_member(&mut members, key, payload);
    assert(jv_members(members@) =~= seq![("name"@, JsonView::String(s.name@)), metric_data_view(s.data, start, now)]);
    Json::Object(members)
}

/// The `/v1/metrics` payload: every instrument's readings under one resource block, with `start` — when the
/// process began recording, which tells a backend that a total restarting from zero is a process restart rather
/// than a counter going backwards — and `now` as their times.
pub open spec fn metrics_view(
    snapshots: Seq<MetricSnapshot>,
    base: Seq<(String, Value)>,
    enrichment: Seq<(String, Value)>,
    start: u64,
    now: u64,
) -> JsonView {
    one(
        "resourceMetrics"@,
        JsonView::Array(seq![obj(seq![
            ("resource"@, resource_view(base, enrichment)),
            ("scopeMetrics"@, JsonView::Array(seq![obj(seq![
                ("scope"@, scope_view()),
                ("metrics"@, JsonView::Array(snapshots.map_values(|s: MetricSnapshot| metric_view(s, start, now)))),
            ])])),
        ])]),
    )
}

/// The `metrics` array of a `/v1/metrics` payload: `resourceMetrics[0].scopeMetrics[0].metrics`.
pub open spec fn payload_metrics(payload: JsonView) -> JsonView {
    member_value(
        element(member_value(element(member_value(payload, "resourceMetrics"@), 0), "scopeMetrics"@), 0),
        "metrics"@,
    )
}

/// Data point `j` of a metric entry whose data sits under `kind`: `metric[kind].dataPoints[j]`.
pub open spec fn data_point(metric: JsonView, kind: Seq<char>, j: int) -> JsonView {
    element(member_value(member_value(metric, kind), "dataPoints"@), j)
}

/// How many data points a metric entry has under `kind`.
pub open spec fn data_point_count(metric: JsonView, kind: Seq<char>) -> nat {
    element_count(member_value(member_value(metric, kind), "dataPoints"@))
}

/// Every histogram point has one bucket count more than there are bounds, as the instruments' snapshots make it.
pub open spec fn histogram_points_fit(data: MetricData) -> bool {
    match data {
        MetricData::Histogram { bounds_bits, points } => forall|j: int|
            0 <= j < points@.len() ==> (#[trigger] points@[j]).bucket_counts@.len() == bounds_bits@.len() + 1,
        _ => true,
    }
}

/// What the encoding rules ask of the metric entry `m` for the snapshot `s`: it carries the instrument's name, one
/// data point per series in order, every 64-bit integer (the value, the count, each bucket count and both times) as
/// the decimal string of its value, every gauge sample, histogram sum and bound as a double, and, for a histogram,
/// exactly one bucket count more than there are bounds.
pub open spec fn metric_entry_keeps_the_rules(m: JsonView, s: MetricSnapshot, start: u64, now: u64) -> bool {
    &&& member_value(m, "name"@) == JsonView::String(s.name@)
    &&& match s.data {
        MetricData::Sum(points) => {
            &&& data_point_count(m, "sum"@) == points@.len()
            &&& forall|j: int|
                0 <= j < points@.len() ==> member_value(#[trigger] data_point(m, "sum"@, j), "asInt"@) == big(
                    points@[j].value,
                ) && member_value(data_point(m, "sum"@, j), "startTimeUnixNano"@) == big(start) && member_value(
                    data_point(m, "sum"@, j),
                    "timeUnixNano"@,
                ) == big(now)
        },
        MetricData::Gauge(points) => {
            &&& data_point_count(m, "gauge"@) == points@.len()
            &&& forall|j: int|
                0 <= j < points@.len() ==> member_value(#[trigger] data_point(m, "gauge"@, j), "timeUnixNano"@) == big(
                    now,
                ) && member_value(data_point(m, "gauge"@, j), "asDouble"@) == JsonView::Double(points@[j].bits)
        },
        MetricData::Histogram { bounds_bits, points } => {
            &&& data_point_count(m, "histogram"@) == points@.len()
            &&& forall|j: int|
                0 <= j < points@.len() ==> {
                    let dp = #[trigger] data_point(m, "histogram"@, j);
                    &&& member_value(dp, "count"@) == big(points@[j].count)
                    &&& member_value(dp, "sum"@) == JsonView::Double(points@[j].sum_bits)
                    &&& member_value(dp, "explicitBounds"@) == JsonView::Array(
                        bounds_bits@.map_values(|b: u64| JsonView::Double(b)),
                    )
                    &&& member_value(dp, "startTimeUnixNano"@) == big(start)
                    &&& member_value(dp, "timeUnixNano"@) == big(now)
                    &&& element_count(member_value(dp, "bucketCounts"@)) == element_count(
                        member_value(dp, "explicitBounds"@),
                    ) + 1
                    &&& forall|c: int|
                        0 <= c < points@[j].bucket_counts@.len() ==> element(member_value(dp, "bucketCounts"@), c)
                            == big(#[trigger] points@[j].bucket_counts@[c])
                }
        },
    }
}

/// A member is found at the first position that carries its name, when every earlier name differs from it in its
/// length or its first character.
proof fn lemma_member_at(members: Seq<(Seq<char>, JsonView)>, k: int, key: Seq<char>)
    requires
        0 <= k < members.len(),
        members[k].0 == key,
        key.len() > 0,
        forall|i: int|
            0 <= i < k ==> (#[trigger] members[i]).0.len() != key.len() || (members[i].0.len() > 0
                && members[i].0[0] != key[0]),
    ensures
        first_member(members, key) == members[k].1,
{
    assert forall|i: int| 0 <= i < k implies #[trigger] members[i].0 != key by {
        if members[i].0.len() == key.len() {
            assert(members[i].0[0] != key[0]);
        }
    }
    lemma_first_member(members, k, key);
}

/// The metric entry for one snapshot keeps the encoding rules.
proof fn lemma_metric_entry(s: MetricSnapshot, start: u64, now: u64)
    requires
        histogram_points_fit(s.data),
    ensures
        metric_entry_keeps_the_rules(metric_view(s, start, now), s, start, now),
{
    reveal_strlit("name");
    reveal_strlit("sum");
    reveal_strlit("gauge");
    reveal_strlit("histogram");
    reveal_strlit("aggregationTemporality");
    reveal_strlit("isMonotonic");
    reveal_strlit("dataPoints");
    reveal_strlit("attributes");
    reveal_strlit("startTimeUnixNano");
    reveal_strlit("timeUnixNano");
    reveal_strlit("asInt");
    reveal_strlit("asDouble");
    reveal_strlit("count");
    reveal_strlit("explicitBounds");
    reveal_strlit("bucketCounts");
    let m = metric_view(s, start, now);
    let top = seq![("name"@, JsonView::String(s.name@)), metric_data_view(s.data, start, now)];
    lemma_member_at(top, 0, "name"@);
    match s.data {
        MetricData::Sum(points) => {
            lemma_member_at(top, 1, "sum"@);
            let body = seq![
                ("aggregationTemporality"@, JsonView::Number(CUMULATIVE as int)),
                ("isMonotonic"@, JsonView::Bool(true)),
                ("dataPoints"@, JsonView::Array(points@.map_values(|p: SumPoint| sum_point_view(p, start, now)))),
            ];
            lemma_member_at(body, 2, "dataPoints"@);
            assert forall|j: int| 0 <= j < points@.len() implies member_value(
                #[trigger] data_point(m, "sum"@, j),
                "asInt"@,
            ) == big(points@[j].value) && member_value(data_point(m, "sum"@, j), "startTimeUnixNano"@) == big(start)
                && member_value(data_point(m, "sum"@, j), "timeUnixNano"@) == big(now) by {
                let p = points@[j];
                let ms = seq![
                    ("attributes"@, tag_values_view(p.tags@)),
                    ("startTimeUnixNano"@, big(start)),
                    ("timeUnixNano"@, big(now)),
                    ("asInt"@, JsonView::String(decimal(p.value as nat))),
                ];
                assert(data_point(m, "sum"@, j) == obj(ms));
                lemma_member_at(ms, 1, "startTimeUnixNano"@);
                lemma_member_at(ms, 2, "timeUnixNano"@);
                lemma_member_at(ms, 3, "asInt"@);
            }
        },
        MetricData::Gauge(points) => {
            lemma_member_at(top, 1, "gauge"@);
            let body = seq![
                ("dataPoints"@, JsonView::Array(points@.map_values(|p: GaugePoint| gauge_point_view(p, now)))),
            ];
            lemma_member_at(body, 0, "dataPoints"@);
            assert forall|j: int| 0 <= j < points@.len() implies member_value(
                #[trigger] data_point(m, "gauge"@, j),
                "timeUnixNano"@,
            ) == big(now) && member_value(data_point(m, "gauge"@, j), "asDouble"@) == JsonView::Double(points@[j].bits) by {
                let p = points@[j];
                let ms = seq![
                    ("attributes"@, tag_values_view(p.tags@)),
                    ("timeUnixNano"@, big(now)),
                    ("asDouble"@, JsonView::Double(p.bits)),
                ];
                assert(data_point(m, "gauge"@, j) == obj(ms));
                lemma_member_at(ms, 1, "timeUnixNano"@);
                lemma_member_at(ms, 2, "asDouble"@);
            }
        },
        MetricData::Histogram { bounds_bits, points } => {
            lemma_member_at(top, 1, "histogram"@);
            let body = seq![
                ("aggregationTemporality"@, JsonView::Number(CUMULATIVE as int)),
                ("dataPoints"@, JsonView::Array(points@.map_values(
                    |p: HistogramPoint| histogram_point_view(p, bounds_bits@, start, now),
                ))),
            ];
            lemma_member_at(body, 1, "dataPoints"@);
            assert forall|j: int| 0 <= j < points@.len() implies {
                let dp = #[trigger] data_point(m, "histogram"@, j);
                &&& member_value(dp, "count"@) == big(points@[j].count)
                &&& member_value(dp, "sum"@) == JsonView::Double(points@[j].sum_bits)
                &&& member_value(dp, "explicitBounds"@) == JsonView::Array(
                    bounds_bits@.map_values(|b: u64| JsonView::Double(b)),
                )
                &&& member_value(dp, "startTimeUnixNano"@) == big(start)
                &&& member_value(dp, "timeUnixNano"@) == big(now)
                &&& element_count(member_value(dp, "bucketCounts"@)) == element_count(
                    member_value(dp, "explicitBounds"@),
                ) + 1
                &&& forall|c: int|
                    0 <= c < points@[j].bucket_counts@.len() ==> element(member_value(dp, "bucketCounts"@), c)
                        == big(#[trigger] points@[j].bucket_counts@[c])
            } by {
                let p = points@[j];
                let ms = seq![
                    ("attributes"@, tag_values_view(p.tags@)),
                    ("startTimeUnixNano"@, big(start)),
                    ("timeUnixNano"@, big(now)),
                    ("count"@, big(p.count)),
                    ("sum"@, JsonView::Double(p.sum_bits)),
                    ("explicitBounds"@, JsonView::Array(bounds_bits@.map_values(|b: u64| JsonView::Double(b)))),
                    ("bucketCounts"@, JsonView::Array(p.bucket_counts@.map_values(|c: u64| big(c)))),
                ];
                assert(data_point(m, "histogram"@, j) == obj(ms));
                lemma_member_at(ms, 1, "startTimeUnixNano"@);
                lemma_member_at(ms, 2, "timeUnixNano"@);
                lemma_member_at(ms, 3, "count"@);
                lemma_member_at(ms, 4, "sum"@);
                lemma_member_at(ms, 5, "explicitBounds"@);
                lemma_member_at(ms, 6, "bucketCounts"@);
            }
        },
    }
}

/// The `/v1/metrics` payload keeps the encoding rules for every list of snapshots: it has exactly one resource block,
/// whose single scope holds one metric entry per snapshot, in order, each under its instrument's name; every 64-bit
/// integer in it is the decimal string of its value; and every histogram data point has exactly one bucket count
/// more than there are bounds, given that each snapshot's points do.
pub proof fn the_metrics_payload_keeps_the_encoding_rules(
    snapshots: Seq<MetricSnapshot>,
    base: Seq<(String, Value)>,
    enrichment: Seq<(String, Value)>,
    start: u64,
    now: u64,
)
    requires
        forall|i: int| 0 <= i < snapshots.len() ==> histogram_points_fit(#[trigger] snapshots[i].data),
    ensures
        element_count(member_value(metrics_view(snapshots, base, enrichment, start, now), "resourceMetrics"@)) == 1,
        element_count(payload_metrics(metrics_view(snapshots, base, enrichment, start, now))) == snapshots.len(),
        forall|i: int|
            0 <= i < snapshots.len() ==> metric_entry_keeps_the_rules(
                element(payload_metrics(metrics_view(snapshots, base, enrichment, start, now)), i),
                #[trigger] snapshots[i],
                start,
                now,
            ),
{
    reveal_strlit("resourceMetrics");
    reveal_strlit("resource");
    reveal_strlit("scopeMetrics");
    reveal_strlit("scope");
    reveal_strlit("metrics");
    let entries = snapshots.map_values(|s: MetricSnapshot| metric_view(s, start, now));
    let scope_members = seq![("scope"@, scope_view()), ("metrics"@, JsonView::Array(entries))];
    let block_members = seq![
        ("resource"@, resource_view(base, enrichment)),
        ("scopeMetrics"@, JsonView::Array(seq![obj(scope_members)])),
    ];
    let payload = metrics_view(snapshots, base, enrichment, start, now);
    lemma_member_at(seq![("resourceMetrics"@, JsonView::Array(seq![obj(block_members)]))], 0, "resourceMetrics"@);
    lemma_member_at(block_members, 1, "scopeMetrics"@);
    lemma_member_at(scope_members, 1, "metrics"@);
    assert(payload_metrics(payload) == JsonView::Array(entries));
    assert forall|i: int| 0 <= i < snapshots.len() implies metric_entry_keeps_the_rules(
        element(payload_metrics(payload), i),
        #[trigger] snapshots[i],
        start,
        now,
    ) by {
        lemma_metric_entry(snapshots[i], start, now);
    }
}

/// No member of `members` is named `key`, so looking it up finds nothing.
proof fn lemma_no_member(members: Seq<(Seq<char>, JsonView)>, key: Seq<char>)
    requires
        forall|i: int| 0 <= i < members.len() ==> #[trigger] members[i].0 != key,
    ensures
        first_member(members, key) == JsonView::Null,
    decreases members.len(),
{
    if members.len() > 0 {
        let rest = members.drop_first();
        assert(members[0].0 != key);
        assert forall|i: int| 0 <= i < rest.len() implies #[trigger] rest[i].0 != key by {
            assert(rest[i] == members[i + 1]);
        }
        lemma_no_member(rest, key);
    }
}

/// Span `k` of resource block `b` of a `/v1/traces` payload: `resourceSpans[b].scopeSpans[0].spans[k]`.
pub open spec fn payload_span(payload: JsonView, b: int, k: int) -> JsonView {
    element(
        member_value(
            element(member_value(element(member_value(payload, "resourceSpans"@), b), "scopeSpans"@), 0),
            "spans"@,
        ),
        k,
    )
}

/// How many spans resource block `b` of a `/v1/traces` payload holds.
pub open spec fn payload_span_count(payload: JsonView, b: int) -> nat {
    element_count(
        member_value(
            element(member_value(element(member_value(payload, "resourceSpans"@), b), "scopeSpans"@), 0),
            "spans"@,
        ),
    )
}

/// What the encoding rules ask of the span entry `j` for the finished span `r`: its ids, and its parent's when it
/// has one, as lowercase hex; its name; and its start and end times as the decimal strings of their values.
pub open spec fn span_entry_keeps_the_rules(j: JsonView, r: SpanRecord) -> bool {
    &&& member_value(j, "traceId"@) == JsonView::String(hex_text(r.trace_id.0@))
    &&& member_value(j, "spanId"@) == JsonView::String(hex_text(r.span_id.0@))
    &&& member_value(j, "name"@) == JsonView::String(r.name@)
    &&& member_value(j, "startTimeUnixNano"@) == big(r.start_unix_nano)
    &&& member_value(j, "endTimeUnixNano"@) == big(r.end_unix_nano)
    &&& match r.parent_span_id {
        Some(p) => member_value(j, "parentSpanId"@) == JsonView::String(hex_text(p.0@)),
        None => member_value(j, "parentSpanId"@) == JsonView::Null,
    }
}

/// The span entry for one finished span keeps the encoding rules.
proof fn lemma_span_entry(r: SpanRecord)
    ensures
        span_entry_keeps_the_rules(span_view(r), r),
{
    reveal_strlit("traceId");
    reveal_strlit("spanId");
    reveal_strlit("name");
    reveal_strlit("kind");
    reveal_strlit("startTimeUnixNano");
    reveal_strlit("endTimeUnixNano");
    reveal_strlit("attributes");
    reveal_strlit("events");
    reveal_strlit("parentSpanId");
    reveal_strlit("links");
    reveal_strlit("status");
    let head = seq![
        ("traceId"@, JsonView::String(hex_text(r.trace_id.0@))),
        ("spanId"@, JsonView::String(hex_text(r.span_id.0@))),
        ("name"@, JsonView::String(r.name@)),
        ("kind"@, JsonView::Number(SPAN_KIND_INTERNAL as int)),
        ("startTimeUnixNano"@, big(r.start_unix_nano)),
        ("endTimeUnixNano"@, big(r.end_unix_nano)),
        ("attributes"@, key_values_view(r.attributes@)),
        ("events"@, JsonView::Array(r.events@.map_values(|e: SpanEvent| event_view(e)))),
    ];
    let ms = head + span_extras_view(r);
    assert forall|i: int| 0 <= i < 8 implies #[trigger] ms[i] == head[i] by {}
    lemma_member_at(ms, 0, "traceId"@);
    lemma_member_at(ms, 1, "spanId"@);
    lemma_member_at(ms, 2, "name"@);
    lemma_member_at(ms, 4, "startTimeUnixNano"@);
    lemma_member_at(ms, 5, "endTimeUnixNano"@);
    match r.parent_span_id {
        Some(p) => {
            assert(ms[8] == ("parentSpanId"@, JsonView::String(hex_text(p.0@))));
            lemma_member_at(ms, 8, "parentSpanId"@);
        },
        None => {
            assert forall|i: int| 0 <= i < ms.len() implies #[trigger] ms[i].0 != "parentSpanId"@ by {
                if ms[i].0.len() == "parentSpanId"@.len() {
                    assert(ms[i].0[0] != "parentSpanId"@[0]);
                }
            }
            lemma_no_member(ms, "parentSpanId"@);
        },
    }
}

/// The `/v1/traces` payload carries every finished span, for every list of spans: one resource block per run of
/// [`grouped`], and in each block the run's spans in order, each with its ids in lowercase hex and its start and end
/// times as the decimal strings of their values.
pub proof fn the_traces_payload_carries_every_span(records: Seq<SpanRecord>, base: Seq<(String, Value)>)
    ensures
        element_count(member_value(traces_view(records, base), "resourceSpans"@)) == grouped(records).len(),
        forall|b: int|
            0 <= b < grouped(records).len() ==> payload_span_count(traces_view(records, base), b) == (
            #[trigger] grouped(records)[b]).len(),
        forall|b: int, k: int|
            0 <= b < grouped(records).len() && 0 <= k < grouped(records)[b].len() ==> span_entry_keeps_the_rules(
                payload_span(traces_view(records, base), b, k),
                #[trigger] grouped(records)[b][k],
            ),
{
    reveal_strlit("resourceSpans");
    reveal_strlit("resource");
    reveal_strlit("scopeSpans");
    reveal_strlit("scope");
    reveal_strlit("spans");
    let payload = traces_view(records, base);
    let blocks = grouped(records).map_values(|run: Seq<SpanRecord>| span_block_view(run, base));
    lemma_member_at(seq![("resourceSpans"@, JsonView::Array(blocks))], 0, "resourceSpans"@);
    assert("scope"@ != "spans"@) by {
        assert("scope"@[1] != "spans"@[1]);
    }
    assert forall|b: int| #![trigger grouped(records)[b]] 0 <= b < grouped(records).len() implies {
        &&& payload_span_count(payload, b) == grouped(records)[b].len()
        &&& forall|k: int| 0 <= k < grouped(records)[b].len() ==> payload_span(payload, b, k) == span_view(
            #[trigger] grouped(records)[b][k],
        )
    } by {
        let run = grouped(records)[b];
        let scope_members = seq![
            ("scope"@, scope_view()),
            ("spans"@, JsonView::Array(run.map_values(|r: SpanRecord| span_view(r)))),
        ];
        let block_members = seq![
            ("resource"@, resource_view(base, run[0].enrichment.fields@)),
            ("scopeSpans"@, JsonView::Array(seq![obj(scope_members)])),
        ];
        assert(element(member_value(payload, "resourceSpans"@), b) == obj(block_members));
        lemma_member_at(block_members, 1, "scopeSpans"@);
        lemma_first_member(scope_members, 1, "spans"@);
    }
    assert forall|b: int, k: int|
        0 <= b < grouped(records).len() && 0 <= k < grouped(records)[b].len() implies span_entry_keeps_the_rules(
        payload_span(payload, b, k),
        #[trigger] grouped(records)[b][k],
    ) by {
        lemma_span_entry(grouped(records)[b][k]);
    }
}

/// Log record `k` of resource block `b` of a `/v1/logs` payload: `resourceLogs[b].scopeLogs[0].logRecords[k]`.
pub open spec fn payload_log(payload: JsonView, b: int, k: int) -> JsonView {
    element(
        member_value(
            element(member_value(element(member_value(payload, "resourceLogs"@), b), "scopeLogs"@), 0),
            "logRecords"@,
        ),
        k,
    )
}

/// How many log records resource block `b` of a `/v1/logs` payload holds.
pub open spec fn payload_log_count(payload: JsonView, b: int) -> nat {
    element_count(
        member_value(
            element(member_value(element(member_value(payload, "resourceLogs"@), b), "scopeLogs"@), 0),
            "logRecords"@,
        ),
    )
}

/// What the encoding rules ask of the log entry `j` for the record `r`: its time as the decimal string of its value,
/// its severity number and the short name of that number's range, its body as a string, and its trace and span ids
/// in lowercase hex exactly when it was emitted inside a span.
pub open spec fn log_entry_keeps_the_rules(j: JsonView, r: LogRecord) -> bool {
    &&& member_value(j, "timeUnixNano"@) == big(r.time_unix_nano)
    &&& member_value(j, "severityNumber"@) == JsonView::Number(severity(r.level) as int)
    &&& member_value(j, "severityText"@) == JsonView::String(otlp_range_name(severity(r.level) as int)->0)
    &&& member_value(j, "body"@) == one("stringValue"@, JsonView::String(r.body@))
    &&& match (r.trace_id, r.span_id) {
        (Some(t), Some(sp)) => member_value(j, "traceId"@) == JsonView::String(hex_text(t.0@)) && member_value(
            j,
            "spanId"@,
        ) == JsonView::String(hex_text(sp.0@)),
        _ => member_value(j, "traceId"@) == JsonView::Null && member_value(j, "spanId"@) == JsonView::Null,
    }
}

/// The log entry for one record keeps the encoding rules.
proof fn lemma_log_entry(r: LogRecord)
    ensures
        log_entry_keeps_the_rules(log_view(r), r),
{
    reveal_strlit("timeUnixNano");
    reveal_strlit("observedTimeUnixNano");
    reveal_strlit("severityNumber");
    reveal_strlit("severityText");
    reveal_strlit("body");
    reveal_strlit("attributes");
    reveal_strlit("traceId");
    reveal_strlit("spanId");
    severity_text_names_the_number_s_range(r.level, r.level);
    let head = seq![
        ("timeUnixNano"@, big(r.time_unix_nano)),
        ("observedTimeUnixNano"@, big(r.time_unix_nano)),
        ("severityNumber"@, JsonView::Number(severity(r.level) as int)),
        ("severityText"@, JsonView::String(severity_label(r.level))),
        ("body"@, one("stringValue"@, JsonView::String(r.body@))),
        ("attributes"@, key_values_view(r.fields@)),
    ];
    let ms = head + log_ids_view(r);
    assert forall|i: int| 0 <= i < 6 implies #[trigger] ms[i] == head[i] by {}
    lemma_member_at(ms, 0, "timeUnixNano"@);
    lemma_member_at(ms, 2, "severityNumber"@);
    lemma_member_at(ms, 3, "severityText"@);
    lemma_member_at(ms, 4, "body"@);
    match (r.trace_id, r.span_id) {
        (Some(t), Some(sp)) => {
            lemma_member_at(ms, 6, "traceId"@);
            lemma_member_at(ms, 7, "spanId"@);
        },
        _ => {
            assert(ms =~= head);
            assert forall|i: int| 0 <= i < ms.len() implies #[trigger] ms[i].0 != "traceId"@ && ms[i].0 != "spanId"@ by {
                assert(ms[i].0.len() != "traceId"@.len() && ms[i].0.len() != "spanId"@.len());
            }
            lemma_no_member(ms, "traceId"@);
            lemma_no_member(ms, "spanId"@);
        },
    }
}

/// The `/v1/logs` payload carries every record, for every list of records: one resource block per run of
/// [`grouped`], and in each block the run's records in order, each with its time as a decimal string, a severity
/// text that names its severity number's range, its body, and its ids in lowercase hex exactly when it has them.
pub proof fn the_logs_payload_carries_every_record(records: Seq<LogRecord>, base: Seq<(String, Value)>)
    ensures
        element_count(member_value(logs_view(records, base), "resourceLogs"@)) == grouped(records).len(),
        forall|b: int|
            0 <= b < grouped(records).len() ==> payload_log_count(logs_view(records, base), b) == (
            #[trigger] grouped(records)[b]).len(),
        forall|b: int, k: int|
            0 <= b < grouped(records).len() && 0 <= k < grouped(records)[b].len() ==> log_entry_keeps_the_rules(
                payload_log(logs_view(records, base), b, k),
                #[trigger] grouped(records)[b][k],
            ),
{
    reveal_strlit("resourceLogs");
    reveal_strlit("resource");
    reveal_strlit("scopeLogs");
    reveal_strlit("scope");
    reveal_strlit("logRecords");
    let payload = logs_view(records, base);
    let blocks = grouped(records).map_values(|run: Seq<LogRecord>| log_block_view(run, base));
    lemma_member_at(seq![("resourceLogs"@, JsonView::Array(blocks))], 0, "resourceLogs"@);
    assert forall|b: int| #![trigger grouped(records)[b]] 0 <= b < grouped(records).len() implies {
        &&& payload_log_count(payload, b) == grouped(records)[b].len()
        &&& forall|k: int| 0 <= k < grouped(records)[b].len() ==> payload_log(payload, b, k) == log_view(
            #[trigger] grouped(records)[b][k],
        )
    } by {
        let run = grouped(records)[b];
        let scope_members = seq![
            ("scope"@, scope_view()),
            ("logRecords"@, JsonView::Array(run.map_values(|r: LogRecord| log_view(r)))),
        ];
        let block_members = seq![
            ("resource"@, resource_view(base, run[0].enrichment.fields@)),
            ("scopeLogs"@, JsonView::Array(seq![obj(scope_members)])),
        ];
        assert(element(member_value(payload, "resourceLogs"@), b) == obj(block_members));
        lemma_member_at(block_members, 1, "scopeLogs"@);
        lemma_member_at(scope_members, 1, "logRecords"@);
    }
    assert forall|b: int, k: int|
        0 <= b < grouped(records).len() && 0 <= k < grouped(records)[b].len() implies log_entry_keeps_the_rules(
        payload_log(payload, b, k),
        #[trigger] grouped(records)[b][k],
    ) by {
        lemma_log_entry(grouped(records)[b][k]);
    }
}

/// Builds the `/v1/metrics` payload.
pub fn metrics(
    snapshots: &Vec<MetricSnapshot>,
    base: &Vec<(String, Value)>,
    enrichment: &Vec<(String, Value)>,
    start: u64,
    now: u64,
) -> (j: Json)
    ensures
        jv(j) == metrics_view(snapshots@, base@, enrichment@, start, now),
{
    proof {
        reveal_strlit("resource");
        reveal_strlit("scopeMetrics");
        reveal_strlit("scope");
        reveal_strlit("metrics");
        reveal_strlit("resourceMetrics");
    }
    let mut encoded = empty_array();
    let mut i: usize = 0;
    while i < snapshots.len()
        invariant
            i <= snapshots@.len(),
            jv_items(encoded@) == snapshots@.subrange(0, i as int).map_values(
                |s: MetricSnapshot| metric_view(s, start, now),
            ),
        decreases snapshots@.len() - i,
    {
        push_item(&mut encoded, metric(&snapshots[i], start, now));
        assert(snapshots@.subrange(0, i + 1).map_values(|s: MetricSnapshot| metric_view(s, start, now))
            =~= snapshots@.subrange(0, i as int).map_values(|s: MetricSnapshot| metric_view(s, start, now)).push(
            metric_view(snapshots@[i as int], start, now),
        ));
        i += 1;
    }
    assert(snapshots@.subrange(0, snapshots@.len() as int) =~= snapshots@);
    let ghost metrics_list = snapshots@.map_values(|s: MetricSnapshot| metric_view(s, start, now));
    let mut scope_block = empty_object();
    push_member(&mut scope_block, "scope", scope());
    push_member(&mut scope_block, "metrics", Json::Array(encoded));
    assert(jv_members(scope_block@) =~= seq![("scope"@, scope_view()), ("metrics"@, JsonView::Array(metrics_list))]);
    let mut scopes = empty_array();
    push_item(&mut scopes, Json::Object(scope_block));
    let ghost scope_entry = obj(seq![("scope"@, scope_view()), ("metrics"@, JsonView::Array(metrics_list))]);
    assert(jv_items(scopes@) =~= seq![scope_entry]);
    let mut block = empty_object();
    push_member(&mut block, "resource", resource(base, enrichment));
    push_member(&mut block, "scopeMetrics", Json::Array(scopes));
    let ghost block_view = obj(seq![
        ("resource"@, resource_view(base@, enrichment@)),
        ("scopeMetrics"@, JsonView::Array(seq![scope_entry])),
    ]);
    assert(jv_members(block@) =~= seq![
        ("resource"@, resource_view(base@, enrichment@)),
        ("scopeMetrics"@, JsonView::Array(seq![scope_entry])),
    ]);
    let mut blocks = empty_array();
    push_item(&mut blocks, Json::Object(block));
    assert(jv_items(blocks@) =~= seq![block_view]);
    single("resourceMetrics", Json::Array(blocks))
}

} // verus!
