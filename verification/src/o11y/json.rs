//! A JSON document as the exporter builds it, and its mathematical form.
//!
//! Object members keep the order they were written in. A double is carried as the bit pattern of its `f64`; the
//! application turns the document into bytes.

use vstd::prelude::*;

verus! {

/// A JSON document.
#[derive(Debug)]
pub enum Json {
    /// `null`.
    Null,
    /// `true` or `false`.
    Bool(bool),
    /// An integral number.
    Number(i64),
    /// A double-precision number, as the bit pattern of its `f64`.
    Double(u64),
    /// A string.
    String(String),
    /// An array.
    Array(Vec<Json>),
    /// An object, its members in the order written.
    Object(Vec<(String, Json)>),
}

/// The mathematical form of a [`Json`] document.
pub enum JsonView {
    /// `null`.
    Null,
    /// `true` or `false`.
    Bool(bool),
    /// An integral number.
    Number(int),
    /// A double-precision number, as the bit pattern of its `f64`.
    Double(u64),
    /// A string.
    String(Seq<char>),
    /// An array.
    Array(Seq<JsonView>),
    /// An object, its members in the order written.
    Object(Seq<(Seq<char>, JsonView)>),
}

/// The value of the first of `members` named `key`, or `null` when none is.
pub open spec fn first_member(members: Seq<(Seq<char>, JsonView)>, key: Seq<char>) -> JsonView
    decreases members.len(),
{
    if members.len() == 0 {
        JsonView::Null
    } else if members[0].0 == key {
        members[0].1
    } else {
        first_member(members.drop_first(), key)
    }
}

/// The value of the member of `j` named `key` (the first, should there be several), or `null` when `j` is not an
/// object or has no such member: what `j[key]` reads.
pub open spec fn member_value(j: JsonView, key: Seq<char>) -> JsonView {
    match j {
        JsonView::Object(members) => first_member(members, key),
        _ => JsonView::Null,
    }
}

/// Element `i` of `j`, or `null` when `j` is not an array or has no such element: what `j[i]` reads.
pub open spec fn element(j: JsonView, i: int) -> JsonView {
    match j {
        JsonView::Array(items) => if 0 <= i < items.len() {
            items[i]
        } else {
            JsonView::Null
        },
        _ => JsonView::Null,
    }
}

/// How many elements `j` has, or zero when it is not an array.
pub open spec fn element_count(j: JsonView) -> nat {
    match j {
        JsonView::Array(items) => items.len(),
        _ => 0,
    }
}

/// A member is found at the first position that carries its name.
pub proof fn lemma_first_member(members: Seq<(Seq<char>, JsonView)>, k: int, key: Seq<char>)
    requires
        0 <= k < members.len(),
        members[k].0 == key,
        forall|i: int| 0 <= i < k ==> #[trigger] members[i].0 != key,
    ensures
        first_member(members, key) == members[k].1,
    decreases k,
{
    if k > 0 {
        let rest = members.drop_first();
        assert(members[0].0 != key);
        assert forall|i: int| 0 <= i < k - 1 implies #[trigger] rest[i].0 != key by {
            assert(rest[i] == members[i + 1]);
        }
        lemma_first_member(rest, k - 1, key);
    }
}

/// The mathematical form of `j`.
pub open spec fn jv(j: Json) -> JsonView
    decreases j,
{
    match j {
        Json::Null => JsonView::Null,
        Json::Bool(b) => JsonView::Bool(b),
        Json::Number(n) => JsonView::Number(n as int),
        Json::Double(bits) => JsonView::Double(bits),
        Json::String(s) => JsonView::String(s@),
        Json::Array(items) => JsonView::Array(jv_items(items@)),
        Json::Object(members) => JsonView::Object(jv_members(members@)),
    }
}

/// The mathematical form of the elements of an array.
pub open spec fn jv_items(items: Seq<Json>) -> Seq<JsonView>
    decreases items,
{
    if items.len() == 0 {
        Seq::empty()
    } else {
        jv_items(items.drop_last()).push(jv(items.last()))
    }
}

/// The mathematical form of the members of an object.
pub open spec fn jv_members(members: Seq<(String, Json)>) -> Seq<(Seq<char>, JsonView)>
    decreases members,
{
    if members.len() == 0 {
        Seq::empty()
    } else {
        jv_members(members.drop_last()).push((members.last().0@, jv(members.last().1)))
    }
}

/// An empty array, ready to be pushed onto.
pub fn empty_array() -> (items: Vec<Json>)
    ensures
        jv_items(items@) == Seq::<JsonView>::empty(),
{
    Vec::new()
}

/// Appends `item` to the elements of an array.
pub fn push_item(items: &mut Vec<Json>, item: Json)
    ensures
        jv_items(final(items)@) == jv_items(old(items)@).push(jv(item)),
{
    let ghost before = items@;
    items.push(item);
    assert(items@.drop_last() =~= before);
}

/// An empty object, ready to be pushed onto.
pub fn empty_object() -> (members: Vec<(String, Json)>)
    ensures
        jv_members(members@) == Seq::<(Seq<char>, JsonView)>::empty(),
{
    Vec::new()
}

/// Appends the member `key: value` to an object.
pub fn push_member(members: &mut Vec<(String, Json)>, key: &str, value: Json)
    ensures
        jv_members(final(members)@) == jv_members(old(members)@).push((key@, jv(value))),
{
    let ghost before = members@;
    members.push((key.to_owned(), value));
    assert(members@.drop_last() =~= before);
}

/// A string value.
pub fn string(s: &str) -> (j: Json)
    ensures
        jv(j) == JsonView::String(s@),
{
    Json::String(s.to_owned())
}

/// The object `{ key: value }`.
pub fn single(key: &str, value: Json) -> (j: Json)
    ensures
        jv(j) == JsonView::Object(seq![(key@, jv(value))]),
{
    let mut members = empty_object();
    push_member(&mut members, key, value);
    assert(jv_members(members@) =~= seq![(key@, jv(value))]);
    Json::Object(members)
}

} // verus!
