//! The decisions behind bridging the `tracing` ecosystem into telemetry.
//!
//! The application implements `tracing-subscriber`'s layer and walks its span registry; what it hands over is plain
//! data — the fields a visitor collected, and what each enclosing span holds — and what it gets back is the record
//! to emit and the span it belongs to.

use vstd::prelude::*;

use super::level::Level;
use super::trace::span_context::SpanContext;
use super::value::{Fields, Value};
use crate::text::{decimal, decimal_chars, string_of, text_is};

verus! {

/// The mathematical form of a [`Value`].
pub enum ValueView {
    /// A boolean.
    Bool(bool),
    /// A signed 64-bit integer.
    Int(i64),
    /// A double, as its bit pattern.
    Double(u64),
    /// A string.
    String(Seq<char>),
    /// A byte array.
    Bytes(Seq<u8>),
    /// A list.
    List(Seq<ValueView>),
    /// Named values.
    Entries(Seq<(Seq<char>, ValueView)>),
}

/// The mathematical form of `v`.
pub open spec fn value_view(v: Value) -> ValueView
    decreases v,
{
    match v {
        Value::Bool(b) => ValueView::Bool(b),
        Value::Int(i) => ValueView::Int(i),
        Value::Double(bits) => ValueView::Double(bits),
        Value::String(s) => ValueView::String(s@),
        Value::Bytes(b) => ValueView::Bytes(b@),
        Value::List(items) => ValueView::List(list_view(items@)),
        Value::Entries(entries) => ValueView::Entries(fields_view(entries@)),
    }
}

/// The mathematical form of a list of values.
pub open spec fn list_view(items: Seq<Value>) -> Seq<ValueView>
    decreases items,
{
    if items.len() == 0 {
        Seq::empty()
    } else {
        list_view(items.drop_last()).push(value_view(items.last()))
    }
}

/// The mathematical form of a set of fields.
pub open spec fn fields_view(fields: Seq<(String, Value)>) -> Seq<(Seq<char>, ValueView)>
    decreases fields,
{
    if fields.len() == 0 {
        Seq::empty()
    } else {
        fields_view(fields.drop_last()).push((fields.last().0@, value_view(fields.last().1)))
    }
}

/// A deep copy of `v`.
pub fn copy_value(v: &Value) -> (r: Value)
    ensures
        value_view(r) == value_view(*v),
    decreases v,
{
    match v {
        Value::Bool(b) => Value::Bool(*b),
        Value::Int(i) => Value::Int(*i),
        Value::Double(bits) => Value::Double(*bits),
        Value::String(s) => Value::String(s.clone()),
        Value::Bytes(b) => {
            let mut out: Vec<u8> = Vec::new();
            let mut i: usize = 0;
            while i < b.len()
                invariant
                    i <= b@.len(),
                    out@ == b@.subrange(0, i as int),
                decreases b@.len() - i,
            {
                out.push(b[i]);
                assert(out@ =~= b@.subrange(0, i + 1));
                i += 1;
            }
            assert(out@ =~= b@);
            Value::Bytes(out)
        },
        Value::List(items) => {
            let mut out: Vec<Value> = Vec::new();
            let mut i: usize = 0;
            while i < items.len()
                invariant
                    *v == Value::List(*items),
                    i <= items@.len(),
                    list_view(out@) == list_view(items@.subrange(0, i as int)),
                decreases items@.len() - i,
            {
                proof {
                    assert(decreases_to!(*v => (*v)->List_0));
                    assert(decreases_to!(*items => items@));
                    assert(decreases_to!(items@ => items@[i as int]));
                }
                let ghost before = out@;
                out.push(copy_value(&items[i]));
                assert(out@.drop_last() =~= before);
                assert(items@.subrange(0, i + 1).drop_last() =~= items@.subrange(0, i as int));
                i += 1;
            }
            assert(items@.subrange(0, items@.len() as int) =~= items@);
            Value::List(out)
        },
        Value::Entries(entries) => {
            let mut out: Vec<(String, Value)> = Vec::new();
            let mut i: usize = 0;
            while i < entries.len()
                invariant
                    *v == Value::Entries(*entries),
                    i <= entries@.len(),
                    fields_view(out@) == fields_view(entries@.subrange(0, i as int)),
                decreases entries@.len() - i,
            {
                proof {
                    assert(decreases_to!(*v => (*v)->Entries_0));
                    assert(decreases_to!(*entries => entries@));
                    assert(decreases_to!(entries@ => entries@[i as int]));
                    assert(decreases_to!(entries@[i as int] => entries@[i as int].1));
                }
                let ghost before = out@;
                out.push((entries[i].0.clone(), copy_value(&entries[i].1)));
                assert(out@.drop_last() =~= before);
                assert(entries@.subrange(0, i + 1).drop_last() =~= entries@.subrange(0, i as int));
                i += 1;
            }
            assert(entries@.subrange(0, entries@.len() as int) =~= entries@);
            Value::Entries(out)
        },
    }
}

/// Whether some field is named `name`.
pub open spec fn has_key(fields: Seq<(Seq<char>, ValueView)>, name: Seq<char>) -> bool {
    exists|k: int| 0 <= k < fields.len() && #[trigger] fields[k].0 == name
}

/// `fields` with each of `extra` appended, in order, unless a field of its name is already there — the fields
/// gathered first win.
pub open spec fn merge_missing(fields: Seq<(Seq<char>, ValueView)>, extra: Seq<(Seq<char>, ValueView)>) -> Seq<
    (Seq<char>, ValueView),
>
    decreases extra.len(),
{
    if extra.len() == 0 {
        fields
    } else {
        let merged = merge_missing(fields, extra.drop_last());
        if has_key(merged, extra.last().0) {
            merged
        } else {
            merged.push(extra.last())
        }
    }
}

/// Whether some field of `fields` is named `name`.
pub fn holds_key(fields: &Fields, name: &str) -> (r: bool)
    ensures
        r == has_key(fields_view(fields@), name@),
{
    proof {
        lemma_fields_view_shape(fields@);
    }
    let mut i: usize = 0;
    while i < fields.len()
        invariant
            i <= fields@.len(),
            fields_view(fields@).len() == fields@.len(),
            forall|k: int| 0 <= k < fields@.len() ==> #[trigger] fields_view(fields@)[k].0 == fields@[k].0@,
            forall|k: int| 0 <= k < i ==> fields_view(fields@)[k].0 != name@,
        decreases fields@.len() - i,
    {
        if text_is(fields[i].0.as_str(), name) {
            assert(fields_view(fields@)[i as int].0 == name@);
            return true;
        }
        i += 1;
    }
    false
}

/// The key `error`, whose presence among a span's or an event's fields marks it failed.
pub open spec fn error_key() -> Seq<char> {
    "error"@
}

/// The position of the first field of `fields` named `name`, if any.
pub open spec fn first_named(fields: Seq<(String, Value)>, name: Seq<char>, k: int) -> bool {
    &&& 0 <= k < fields.len()
    &&& fields[k].0@ == name
    &&& forall|j: int| 0 <= j < k ==> (#[trigger] fields[j]).0@ != name
}

/// The value of the first field named `error`, which a failed span's status message is made from; `None` when no
/// field has that name.
pub fn error_value(fields: &Fields) -> (r: Option<&Value>)
    ensures
        r is None <==> forall|k: int| 0 <= k < fields@.len() ==> (#[trigger] fields@[k]).0@ != error_key(),
        r matches Some(v) ==> exists|k: int| first_named(fields@, error_key(), k) && *v == fields@[k].1,
{
    proof {
        reveal_strlit("error");
    }
    let mut i: usize = 0;
    while i < fields.len()
        invariant
            i <= fields@.len(),
            forall|k: int| 0 <= k < i ==> (#[trigger] fields@[k]).0@ != error_key(),
        decreases fields@.len() - i,
    {
        if text_is(fields[i].0.as_str(), "error") {
            assert(first_named(fields@, error_key(), i as int));
            return Some(&fields[i].1);
        }
        i += 1;
    }
    None
}

/// Sets the field `name` to `value`: the first field of that name takes the value, and a name not yet present is
/// appended — how a folded span keeps the fields recorded on it after it opened.
pub fn set_field(fields: &mut Fields, name: String, value: Value)
    ensures
        (forall|k: int| 0 <= k < old(fields)@.len() ==> (#[trigger] old(fields)@[k]).0@ != name@) ==> final(fields)@
            == old(fields)@.push((name, value)),
        forall|k: int|
            first_named(old(fields)@, name@, k) ==> final(fields)@ == old(fields)@.update(
                k,
                (old(fields)@[k].0, value),
            ),
{
    let mut i: usize = 0;
    while i < fields.len()
        invariant
            i <= fields@.len(),
            fields@ == old(fields)@,
            forall|k: int| 0 <= k < i ==> (#[trigger] fields@[k]).0@ != name@,
        decreases fields@.len() - i,
    {
        if text_is(fields[i].0.as_str(), name.as_str()) {
            assert(first_named(old(fields)@, name@, i as int));
            let ghost before = fields@;
            let (key, _) = fields.remove(i);
            fields.insert(i, (key, value));
            assert(fields@ =~= before.update(i as int, (before[i as int].0, value)));
            assert forall|k: int| first_named(before, name@, k) implies k == i by {
                if k < i {
                } else if k > i {
                    assert(before[i as int].0@ == name@);
                }
            }
            return;
        }
        i += 1;
    }
    fields.push((name, value));
}

/// The view keeps the number of fields, and each field's name.
pub proof fn lemma_fields_view_shape(fields: Seq<(String, Value)>)
    ensures
        fields_view(fields).len() == fields.len(),
        forall|k: int| 0 <= k < fields.len() ==> #[trigger] fields_view(fields)[k] == (fields[k].0@, value_view(fields[k].1)),
    decreases fields.len(),
{
    if fields.len() > 0 {
        lemma_fields_view_shape(fields.drop_last());
    }
}

/// What one enclosing span of an event holds, as far as the bridge is concerned.
#[derive(Debug)]
pub enum Ancestor {
    /// A span folded into the events inside it rather than exported: its fields.
    Folded(Fields),
    /// A span exported as a span of its own: its context, or `None` when it records nothing.
    Exported(Option<SpanContext>),
    /// A span the bridge never saw.
    Untracked,
}

/// The record an event becomes, and what it touches.
#[derive(Debug)]
pub struct EventPlan {
    /// The event's fields, then those of enclosing folded spans, then `target`.
    pub fields: Fields,
    /// The innermost exported span enclosing the event, to attach the record to; `None` to attach it to whatever
    /// is open on the emitting thread.
    pub context: Option<SpanContext>,
    /// The position, among the ancestors, of the span an error event marks failed.
    pub fail: Option<usize>,
}

/// The mathematical form of the ancestors: each folded span's fields, or whether the span is exported with a
/// context.
pub open spec fn ancestor_fields(a: Ancestor) -> Seq<(Seq<char>, ValueView)> {
    match a {
        Ancestor::Folded(f) => fields_view(f@),
        _ => Seq::empty(),
    }
}

/// The fields an event carries after its enclosing folded spans, innermost first, lend it theirs.
pub open spec fn fields_with_ancestors(fields: Seq<(Seq<char>, ValueView)>, ancestors: Seq<Ancestor>) -> Seq<
    (Seq<char>, ValueView),
>
    decreases ancestors.len(),
{
    if ancestors.len() == 0 {
        fields
    } else {
        merge_missing(fields_with_ancestors(fields, ancestors.drop_last()), ancestor_fields(ancestors.last()))
    }
}

/// The position of the innermost exported ancestor that records, if any.
pub open spec fn first_exported(ancestors: Seq<Ancestor>) -> Option<int>
    decreases ancestors.len(),
{
    if ancestors.len() == 0 {
        None
    } else {
        match first_exported(ancestors.drop_last()) {
            Some(i) => Some(i),
            None => match ancestors.last() {
                Ancestor::Exported(Some(_)) => Some(ancestors.len() - 1),
                _ => None,
            },
        }
    }
}

/// The key `target`, under which an event's module path is reported.
pub open spec fn target_key() -> Seq<char> {
    "target"@
}

/// Appends the copies of `extra` whose names `fields` does not have yet, in order.
fn add_missing(fields: &mut Fields, extra: &Fields)
    ensures
        fields_view(final(fields)@) == merge_missing(fields_view(old(fields)@), fields_view(extra@)),
{
    proof {
        lemma_fields_view_shape(extra@);
    }
    let mut i: usize = 0;
    assert(extra@.subrange(0, 0) =~= Seq::<(String, Value)>::empty());
    while i < extra.len()
        invariant
            i <= extra@.len(),
            fields_view(extra@).len() == extra@.len(),
            forall|k: int| 0 <= k < extra@.len() ==> #[trigger] fields_view(extra@)[k] == (extra@[k].0@, value_view(extra@[k].1)),
            fields_view(fields@) == merge_missing(fields_view(old(fields)@), fields_view(extra@).subrange(0, i as int)),
        decreases extra@.len() - i,
    {
        let ghost before = fields@;
        assert(fields_view(extra@).subrange(0, i + 1).drop_last() =~= fields_view(extra@).subrange(0, i as int));
        if !holds_key(fields, extra[i].0.as_str()) {
            fields.push((extra[i].0.clone(), copy_value(&extra[i].1)));
            assert(fields@.drop_last() =~= before);
        }
        i += 1;
    }
    assert(fields_view(extra@).subrange(0, extra@.len() as int) =~= fields_view(extra@));
}

/// Decides what an event becomes: its fields merged with those of its enclosing folded spans, innermost first, a
/// field already present winning; the `target` field added when absent; the record attached to the innermost
/// exported span that records, which an error event also marks failed.
pub fn plan_event(fields: Fields, ancestors: &Vec<Ancestor>, level: Level, target: &str) -> (plan: EventPlan)
    ensures
        has_key(fields_with_ancestors(fields_view(fields@), ancestors@), target_key()) ==> fields_view(plan.fields@)
            == fields_with_ancestors(fields_view(fields@), ancestors@),
        !has_key(fields_with_ancestors(fields_view(fields@), ancestors@), target_key()) ==> fields_view(plan.fields@)
            == fields_with_ancestors(fields_view(fields@), ancestors@).push(
            (target_key(), ValueView::String(target@)),
        ),
        match first_exported(ancestors@) {
            None => plan.context is None && plan.fail is None,
            Some(i) => (ancestors@[i] matches Ancestor::Exported(Some(c)) && plan.context == Some(c)) && (
            level == Level::Error ==> plan.fail == Some(i as usize)) && (level != Level::Error ==> plan.fail is None),
        },
{
    let mut fields = fields;
    let ghost original = fields_view(fields@);
    let mut context: Option<SpanContext> = None;
    let mut fail: Option<usize> = None;
    let mut i: usize = 0;
    assert(ancestors@.subrange(0, 0) =~= Seq::<Ancestor>::empty());
    while i < ancestors.len()
        invariant
            i <= ancestors@.len(),
            fields_view(fields@) == fields_with_ancestors(original, ancestors@.subrange(0, i as int)),
            match first_exported(ancestors@.subrange(0, i as int)) {
                None => context is None && fail is None,
                Some(k) => (ancestors@[k] matches Ancestor::Exported(Some(c)) && context == Some(c)) && (level
                    == Level::Error ==> fail == Some(k as usize)) && (level != Level::Error ==> fail is None),
            },
        decreases ancestors@.len() - i,
    {
        let ghost prefix = ancestors@.subrange(0, i + 1);
        assert(prefix.drop_last() =~= ancestors@.subrange(0, i as int));
        assert(prefix.last() == ancestors@[i as int]);
        match &ancestors[i] {
            Ancestor::Folded(folded) => {
                add_missing(&mut fields, folded);
            },
            Ancestor::Exported(found) => {
                assert(ancestor_fields(ancestors@[i as int]) =~= Seq::<(Seq<char>, ValueView)>::empty());
                if context.is_none() {
                    if let Some(c) = found {
                        context = Some(*c);
                        if level == Level::Error {
                            fail = Some(i);
                        }
                    }
                }
            },
            Ancestor::Untracked => {
                assert(ancestor_fields(ancestors@[i as int]) =~= Seq::<(Seq<char>, ValueView)>::empty());
            },
        }
        i += 1;
    }
    assert(ancestors@.subrange(0, ancestors@.len() as int) =~= ancestors@);
    proof {
        reveal_strlit("target");
    }
    if !holds_key(&fields, "target") {
        let ghost before = fields@;
        let key = "target".to_owned();
        let text = target.to_owned();
        fields.push((key, Value::String(text)));
        assert(fields@.drop_last() =~= before);
        assert(fields@.last() == (key, Value::String(text)));
        assert(value_view(Value::String(text)) == ValueView::String(target@));
        assert(fields_view(fields@) == fields_view(before).push((target_key(), ValueView::String(target@))));
    }
    EventPlan { fields, context, fail }
}

/// The field that carries an event's message.
pub open spec fn message_key() -> Seq<char> {
    "message"@
}

/// The fields a `tracing` visitor gathers, and the event's message when one was among them.
#[derive(Debug)]
pub struct Collect {
    /// Whether a string `message` field is the record's body rather than a field: true for events, false for
    /// spans, where it stays a field.
    pub message_is_body: bool,
    /// The message, once seen.
    pub message: Option<String>,
    /// Every other field, in the order recorded.
    pub fields: Fields,
}

impl Collect {
    /// A collector for an event: a string `message` becomes the body.
    pub fn event() -> (c: Self)
        ensures
            c.message_is_body,
            c.message is None,
            c.fields@.len() == 0,
    {
        Collect { message_is_body: true, message: None, fields: Vec::new() }
    }

    /// A collector for a span: `message` stays a field.
    pub fn span() -> (c: Self)
        ensures
            !c.message_is_body,
            c.message is None,
            c.fields@.len() == 0,
    {
        Collect { message_is_body: false, message: None, fields: Vec::new() }
    }

    /// Keeps one recorded field: a string `message` on an event becomes the body, anything else a field.
    pub fn keep(&mut self, name: &str, value: Value)
        ensures
            final(self).message_is_body == old(self).message_is_body,
            (old(self).message_is_body && name@ == message_key() && value is String) ==> (final(self).message
                == Some(value->String_0) && final(self).fields == old(self).fields),
            !(old(self).message_is_body && name@ == message_key() && value is String) ==> (final(self).message
                == old(self).message && final(self).fields@ == old(self).fields@.push((final(self).fields@.last().0, value))
                && final(self).fields@.last().0@ == name@),
    {
        proof {
            reveal_strlit("message");
        }
        match value {
            Value::String(text) => {
                if self.message_is_body && text_is(name, "message") {
                    self.message = Some(text);
                    return;
                }
                self.fields.push((name.to_owned(), Value::String(text)));
            },
            other => {
                self.fields.push((name.to_owned(), other));
            },
        }
    }
}

/// An unsigned integer as a field value. OTLP has no unsigned integer: a value that fits stays an integer, and one
/// above `i64::MAX` becomes its decimal string, which keeps the number exact rather than saturating it.
pub fn unsigned_value(value: u64) -> (v: Value)
    ensures
        value <= i64::MAX as u64 ==> v == Value::Int(value as i64),
        value > i64::MAX as u64 ==> (v matches Value::String(s) && s@ == decimal(value as nat)),
{
    if value <= i64::MAX as u64 {
        Value::Int(value as i64)
    } else {
        let digits = decimal_chars(value);
        Value::String(string_of(digits.as_slice()))
    }
}

/// What merging keeps: the fields gathered first, unchanged and in front; then only fields of names not yet
/// present, each taken from `extra`; and every name of `extra` ends up present.
proof fn lemma_merge_missing(fields: Seq<(Seq<char>, ValueView)>, extra: Seq<(Seq<char>, ValueView)>)
    ensures
        merge_missing(fields, extra).len() >= fields.len(),
        merge_missing(fields, extra).subrange(0, fields.len() as int) == fields,
        forall|k: int|
            fields.len() <= k < merge_missing(fields, extra).len() ==> !has_key(
                merge_missing(fields, extra).subrange(0, k),
                (#[trigger] merge_missing(fields, extra)[k]).0,
            ) && extra.contains(merge_missing(fields, extra)[k]),
        forall|j: int| 0 <= j < extra.len() ==> has_key(merge_missing(fields, extra), (#[trigger] extra[j]).0),
    decreases extra.len(),
{
    if extra.len() == 0 {
        assert(fields.subrange(0, fields.len() as int) =~= fields);
    } else {
        let init = extra.drop_last();
        let e = extra.last();
        lemma_merge_missing(fields, init);
        let before = merge_missing(fields, init);
        let after = merge_missing(fields, extra);
        assert forall|j: int| 0 <= j < init.len() implies #[trigger] init[j] == extra[j] by {}
        assert forall|x: (Seq<char>, ValueView)| init.contains(x) implies extra.contains(x) by {
            let j = choose|j: int| 0 <= j < init.len() && init[j] == x;
            assert(extra[j] == x);
        }
        assert(extra[extra.len() - 1] == e);
        if has_key(before, e.0) {
            assert forall|j: int| 0 <= j < extra.len() implies has_key(after, (#[trigger] extra[j]).0) by {
                if j < init.len() {
                    assert(has_key(before, init[j].0));
                }
            }
        } else {
            assert(after == before.push(e));
            assert(after.subrange(0, fields.len() as int) =~= before.subrange(0, fields.len() as int));
            assert forall|k: int| fields.len() <= k < after.len() implies !has_key(
                after.subrange(0, k),
                (#[trigger] after[k]).0,
            ) && extra.contains(after[k]) by {
                if k < before.len() {
                    assert(after.subrange(0, k) =~= before.subrange(0, k));
                    assert(after[k] == before[k]);
                } else {
                    assert(after.subrange(0, k) =~= before);
                    assert(after[k] == e);
                }
            }
            assert forall|j: int| 0 <= j < extra.len() implies has_key(after, (#[trigger] extra[j]).0) by {
                if j < init.len() {
                    assert(has_key(before, init[j].0));
                    let w = choose|w: int| 0 <= w < before.len() && #[trigger] before[w].0 == init[j].0;
                    assert(after[w] == before[w]);
                } else {
                    assert(after[before.len() as int] == e);
                }
            }
        }
    }
}

/// How an event's fields come out of its enclosing folded spans, for every event and every chain of spans: the
/// event's own fields stay first and unchanged, so where an enclosing span has a field of the same name the event's
/// value wins; after them come only fields of names not yet present, each taken from some enclosing folded span;
/// and every name any enclosing folded span carries is present.
pub proof fn an_event_keeps_its_own_fields_first(fields: Seq<(Seq<char>, ValueView)>, ancestors: Seq<Ancestor>)
    ensures
        fields_with_ancestors(fields, ancestors).len() >= fields.len(),
        fields_with_ancestors(fields, ancestors).subrange(0, fields.len() as int) == fields,
        forall|k: int|
            fields.len() <= k < fields_with_ancestors(fields, ancestors).len() ==> !has_key(
                fields_with_ancestors(fields, ancestors).subrange(0, k),
                (#[trigger] fields_with_ancestors(fields, ancestors)[k]).0,
            ) && exists|i: int|
                0 <= i < ancestors.len() && ancestor_fields(#[trigger] ancestors[i]).contains(
                    fields_with_ancestors(fields, ancestors)[k],
                ),
        forall|i: int, j: int|
            0 <= i < ancestors.len() && 0 <= j < ancestor_fields(ancestors[i]).len() ==> has_key(
                fields_with_ancestors(fields, ancestors),
                (#[trigger] ancestor_fields(#[trigger] ancestors[i])[j]).0,
            ),
    decreases ancestors.len(),
{
    if ancestors.len() == 0 {
        assert(fields.subrange(0, fields.len() as int) =~= fields);
    } else {
        let init = ancestors.drop_last();
        let last = ancestors.last();
        an_event_keeps_its_own_fields_first(fields, init);
        let before = fields_with_ancestors(fields, init);
        let extra = ancestor_fields(last);
        lemma_merge_missing(before, extra);
        let after = fields_with_ancestors(fields, ancestors);
        assert(after == merge_missing(before, extra));
        assert forall|i: int| 0 <= i < init.len() implies #[trigger] init[i] == ancestors[i] by {}
        assert(ancestors[ancestors.len() - 1] == last);
        assert(after.subrange(0, before.len() as int).subrange(0, fields.len() as int) =~= after.subrange(
            0,
            fields.len() as int,
        ));
        assert forall|k: int| fields.len() <= k < after.len() implies !has_key(
            after.subrange(0, k),
            (#[trigger] after[k]).0,
        ) && exists|i: int| 0 <= i < ancestors.len() && ancestor_fields(#[trigger] ancestors[i]).contains(after[k]) by {
            if k < before.len() {
                assert(after.subrange(0, k) =~= before.subrange(0, k)) by {
                    assert(after.subrange(0, before.len() as int) == before);
                    assert forall|t: int| 0 <= t < k implies after[t] == before[t] by {
                        assert(after.subrange(0, before.len() as int)[t] == after[t]);
                    }
                }
                assert(after[k] == before[k]) by {
                    assert(after.subrange(0, before.len() as int)[k] == after[k]);
                }
                let i = choose|i: int| 0 <= i < init.len() && ancestor_fields(#[trigger] init[i]).contains(before[k]);
                assert(ancestors[i] == init[i]);
            } else {
                assert(ancestor_fields(ancestors[ancestors.len() - 1]).contains(after[k]));
            }
        }
        assert forall|i: int, j: int|
            0 <= i < ancestors.len() && 0 <= j < ancestor_fields(ancestors[i]).len() implies has_key(
            after,
            (#[trigger] ancestor_fields(#[trigger] ancestors[i])[j]).0,
        ) by {
            if i < init.len() {
                assert(ancestors[i] == init[i]);
                assert(has_key(before, ancestor_fields(init[i])[j].0));
                let w = choose|w: int| 0 <= w < before.len() && #[trigger] before[w].0 == ancestor_fields(init[i])[j].0;
                assert(after.subrange(0, before.len() as int)[w] == after[w]);
            } else {
                assert(extra[j] == ancestor_fields(ancestors[i])[j]);
            }
        }
    }
}

} // verus!
