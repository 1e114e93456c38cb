//! The attribute set attached to every record, span and data point: machine, session, and optional location.

use vstd::prelude::*;

use std::sync::Arc;

use super::geolocation::Geolocation;
use super::value::{Fields, Value};
use crate::text::text_is;

verus! {

/// One attribute as text: its key and its value.
pub type Attr = (Seq<char>, Seq<char>);

/// The key of the service-scoped machine identifier.
pub open spec fn machine_id_key() -> Seq<char> {
    "machine.id"@
}

/// The key of the operating system's name.
pub open spec fn machine_os_key() -> Seq<char> {
    "machine.os"@
}

/// The key of the processor architecture.
pub open spec fn machine_arch_key() -> Seq<char> {
    "machine.arch"@
}

/// The key of the session identifier.
pub open spec fn session_id_key() -> Seq<char> {
    "session.id"@
}

/// The key of the country a location lookup reported.
pub open spec fn country_key() -> Seq<char> {
    "location.country"@
}

/// The key of the region a location lookup reported.
pub open spec fn region_key() -> Seq<char> {
    "location.region"@
}

/// The key of the city a location lookup reported.
pub open spec fn city_key() -> Seq<char> {
    "location.city"@
}

/// Whether `key` is one of the three location keys.
pub open spec fn is_location_key(key: Seq<char>) -> bool {
    key == country_key() || key == region_key() || key == city_key()
}

/// `attrs` without its location attributes, the others in their order.
pub open spec fn without_location(attrs: Seq<Attr>) -> Seq<Attr>
    decreases attrs.len(),
{
    if attrs.len() == 0 {
        Seq::empty()
    } else {
        let init = without_location(attrs.drop_last());
        if is_location_key(attrs.last().0) {
            init
        } else {
            init.push(attrs.last())
        }
    }
}

/// The attribute a location field contributes: none when the service did not report it or reported it empty.
pub open spec fn location_attr(key: Seq<char>, value: Option<Seq<char>>) -> Seq<Attr> {
    match value {
        Some(v) => if v.len() > 0 {
            seq![(key, v)]
        } else {
            Seq::empty()
        },
        None => Seq::empty(),
    }
}

/// The text of an optional string.
pub open spec fn opt_view(s: Option<String>) -> Option<Seq<char>> {
    match s {
        Some(v) => Some(v@),
        None => None,
    }
}

/// The attributes after merging a resolved location: any earlier location is **replaced**, not added to, and the
/// country, region and city the service reported follow the other attributes, in that order.
pub open spec fn located(attrs: Seq<Attr>, geo: Geolocation) -> Seq<Attr> {
    without_location(attrs) + location_attr(country_key(), opt_view(geo.country)) + location_attr(
        region_key(),
        opt_view(geo.region),
    ) + location_attr(city_key(), opt_view(geo.city))
}

/// The text of a list of attributes.
pub open spec fn attrs_view(attrs: Seq<(String, String)>) -> Seq<Attr> {
    attrs.map_values(|a: (String, String)| (a.0@, a.1@))
}

/// The text of a set of fields whose values are all strings; other values read as empty.
pub open spec fn string_fields_view(fields: Seq<(String, Value)>) -> Seq<Attr> {
    fields.map_values(
        |f: (String, Value)|
            (f.0@, match f.1 {
                Value::String(s) => s@,
                _ => Seq::empty(),
            }),
    )
}

/// What an enrichment holds: the machine and location attributes, the current session, and the generation of the
/// attribute list records are stamped with.
pub struct EnrichmentView {
    /// Everything but the session id, in order.
    pub base: Seq<Attr>,
    /// The current session id.
    pub session: Seq<char>,
    /// Which rendering of the attributes is current; it changes whenever they do.
    pub generation: u64,
}

/// The attribute list records are stamped with: the base attributes, then the session id.
pub open spec fn rendered(v: EnrichmentView) -> Seq<Attr> {
    v.base.push((session_id_key(), v.session))
}

/// One rendering of the enrichment: the attribute list records are stamped with, and which generation it is.
#[derive(Debug)]
pub struct Attributes {
    /// Which rendering this is; a new one is made whenever the attributes change.
    pub generation: u64,
    /// The attributes, every value a string.
    pub fields: Fields,
}

/// `Arc::clone`: another handle to the same attribute list.
#[verifier::external_body]
fn share(a: &Arc<Attributes>) -> (r: Arc<Attributes>)
    ensures
        r == *a,
{
    Arc::clone(a)
}

/// Whether `s` is a UUID in its hyphenated lowercase form: 36 characters, hyphens at positions 8, 13, 18 and 23,
/// and lowercase hex digits everywhere else.
pub open spec fn hyphenated_uuid(s: Seq<char>) -> bool {
    &&& s.len() == 36
    &&& forall|i: int|
        0 <= i < 36 ==> if i == 8 || i == 13 || i == 18 || i == 23 {
            #[trigger] s[i] == '-'
        } else {
            ('0' <= s[i] <= '9') || ('a' <= s[i] <= 'f')
        }
}

/// `uuid::Uuid::new_v4().to_string()`: a fresh random UUID, which `Display` writes in its hyphenated lowercase
/// form. Which UUID comes out is left open: only its form is stated.
#[verifier::external_body]
fn fresh_session_id() -> (s: String)
    ensures
        hyphenated_uuid(s@),
{
    uuid::Uuid::new_v4().to_string()
}

/// The enrichment attributes shared by every log record, span and metric data point.
///
/// The rendered attribute list is replaced wholesale rather than changed in place, and a record carries a shared
/// handle to the rendering current when it was emitted rather than a copy of it. That keeps emitting to a reference
/// count, and it is what makes [`renew_session`](Enrichment::renew_session) correct: a record emitted just before
/// the renewal keeps the session it was emitted under, instead of picking up whatever was current when the
/// exporter reached it. Each rendering carries a generation, which changes whenever the attributes do.
#[derive(Debug)]
pub struct Enrichment {
    /// Machine info, and location once a lookup resolves.
    base: Vec<(String, String)>,
    /// The current session id.
    session_id: String,
    /// The current rendering's generation.
    generation: u64,
    /// The current rendering, shared by every record emitted while it is current.
    rendered: Arc<Attributes>,
}

impl View for Enrichment {
    type V = EnrichmentView;

    closed spec fn view(&self) -> EnrichmentView {
        EnrichmentView { base: attrs_view(self.base@), session: self.session_id@, generation: self.generation }
    }
}

impl Enrichment {
    /// The shared rendering matches the attributes and the generation.
    pub closed spec fn wf(self) -> bool {
        &&& hyphenated_uuid(self.session_id@)
        &&& self.rendered.generation == self.generation
        &&& string_fields_view(self.rendered.fields@) == rendered(self@)
        &&& forall|i: int| 0 <= i < self.rendered.fields@.len() ==> (#[trigger] self.rendered.fields@[i]).1 is String
    }

    /// The enrichment that can be read locally — the service-scoped machine id when there is one, the operating
    /// system and the architecture (Rust's own platform names, such as `macos` and `x86_64`) — and a fresh session.
    /// Nothing here touches the network.
    pub fn new(machine_id: Option<&str>, os: &str, arch: &str) -> (e: Self)
        ensures
            e.wf(),
            e@.base == (match machine_id {
                Some(id) => seq![(machine_id_key(), id@)],
                None => Seq::<Attr>::empty(),
            }) + seq![(machine_os_key(), os@), (machine_arch_key(), arch@)],
            e@.generation == 0,
            hyphenated_uuid(e@.session),
    {
        let mut base: Vec<(String, String)> = Vec::new();
        if let Some(id) = machine_id {
            base.push(("machine.id".to_owned(), id.to_owned()));
        }
        base.push(("machine.os".to_owned(), os.to_owned()));
        base.push(("machine.arch".to_owned(), arch.to_owned()));
        proof {
            reveal_strlit("machine.id");
            reveal_strlit("machine.os");
            reveal_strlit("machine.arch");
        }
        let session_id = fresh_session_id();
        let fields = render(&base, &session_id);
        let e = Enrichment { base, session_id, generation: 0, rendered: Arc::new(Attributes { generation: 0, fields }) };
        assert(e@.base =~= (match machine_id {
            Some(id) => seq![(machine_id_key(), id@)],
            None => Seq::<Attr>::empty(),
        }) + seq![(machine_os_key(), os@), (machine_arch_key(), arch@)]);
        e
    }

    /// A well-formed enrichment's session id is a hyphenated UUID.
    pub proof fn lemma_session_is_a_uuid(self)
        requires
            self.wf(),
        ensures
            hyphenated_uuid(self@.session),
    {
    }

    /// The generation of the current attribute list.
    pub fn generation(&self) -> (g: u64)
        ensures
            g == self@.generation,
    {
        self.generation
    }

    /// The attribute list of the current rendering.
    pub closed spec fn shared_fields(self) -> Seq<(String, Value)> {
        self.rendered.fields@
    }

    /// The current rendering, shared rather than copied: emitting a record costs a reference count.
    pub fn attributes(&self) -> (a: Arc<Attributes>)
        requires
            self.wf(),
        ensures
            a.generation == self@.generation,
            a.fields@ == self.shared_fields(),
            string_fields_view(a.fields@) == rendered(self@),
            forall|i: int| 0 <= i < a.fields@.len() ==> (#[trigger] a.fields@[i]).1 is String,
    {
        share(&self.rendered)
    }

    /// The service-scoped machine id every record carries, or `None` when the host id could not be read.
    pub fn machine_id(&self) -> (r: Option<String>)
        ensures
            r matches Some(id) ==> exists|k: int|
                0 <= k < self@.base.len() && self@.base[k] == (machine_id_key(), id@),
            r is None ==> forall|k: int| 0 <= k < self@.base.len() ==> self@.base[k].0 != machine_id_key(),
    {
        let mut i: usize = 0;
        while i < self.base.len()
            invariant
                i <= self.base@.len(),
                forall|k: int| 0 <= k < i ==> self@.base[k].0 != machine_id_key(),
            decreases self.base@.len() - i,
        {
            proof {
                reveal_strlit("machine.id");
            }
            if text_is(self.base[i].0.as_str(), "machine.id") {
                let id = self.base[i].1.clone();
                assert(self@.base[i as int] == (machine_id_key(), id@));
                return Some(id);
            }
            i += 1;
        }
        None
    }

    /// The session id attached to records emitted right now.
    pub fn session_id(&self) -> (s: String)
        ensures
            s@ == self@.session,
    {
        self.session_id.clone()
    }

    /// Assigns a fresh session id to every record emitted from now on, and moves to a new generation.
    pub fn renew_session(&mut self)
        requires
            old(self).wf(),
        ensures
            final(self).wf(),
            final(self)@.base == old(self)@.base,
            final(self)@.generation == old(self)@.generation.wrapping_add(1),
            hyphenated_uuid(final(self)@.session),
    {
        self.renew_session_to(fresh_session_id());
    }

    /// Makes `session` the session id of every record emitted from now on, and moves to a new generation; the base
    /// attributes stay as they are.
    pub fn renew_session_to(&mut self, session: String)
        requires
            old(self).wf(),
            hyphenated_uuid(session@),
        ensures
            final(self).wf(),
            final(self)@ == (EnrichmentView {
                base: old(self)@.base,
                session: session@,
                generation: old(self)@.generation.wrapping_add(1),
            }),
    {
        self.session_id = session;
        self.generation = self.generation.wrapping_add(1);
        let fields = render(&self.base, &self.session_id);
        self.rendered = Arc::new(Attributes { generation: self.generation, fields });
    }

    /// Merges a resolved geolocation, as [`located`] describes, and moves to a new generation.
    pub fn set_location(&mut self, geo: &Geolocation)
        requires
            old(self).wf(),
        ensures
            final(self).wf(),
            final(self)@.base == located(old(self)@.base, *geo),
            final(self)@.session == old(self)@.session,
            final(self)@.generation == old(self)@.generation.wrapping_add(1),
    {
        proof {
            reveal_strlit("location.country");
            reveal_strlit("location.region");
            reveal_strlit("location.city");
        }
        let ghost old_base = self@.base;
        let mut kept: Vec<(String, String)> = Vec::new();
        let mut i: usize = 0;
        while i < self.base.len()
            invariant
                i <= self.base@.len(),
                attrs_view(self.base@) == old_base,
                attrs_view(kept@) == without_location(old_base.subrange(0, i as int)),
            decreases self.base@.len() - i,
        {
            let key = self.base[i].0.as_str();
            let is_location = text_is(key, "location.country") || text_is(key, "location.region") || text_is(
                key,
                "location.city",
            );
            assert(old_base.subrange(0, i + 1).drop_last() =~= old_base.subrange(0, i as int));
            if !is_location {
                let ghost before = kept@;
                kept.push((self.base[i].0.clone(), self.base[i].1.clone()));
                assert(attrs_view(kept@) =~= attrs_view(before).push(old_base[i as int]));
            }
            i += 1;
        }
        assert(old_base.subrange(0, old_base.len() as int) =~= old_base);
        let ghost stripped = attrs_view(kept@);
        push_location(&mut kept, "location.country", &geo.country);
        push_location(&mut kept, "location.region", &geo.region);
        push_location(&mut kept, "location.city", &geo.city);
        self.base = kept;
        self.generation = self.generation.wrapping_add(1);
        let fields = render(&self.base, &self.session_id);
        self.rendered = Arc::new(Attributes { generation: self.generation, fields });
    }
}

/// The attribute list for `base` and `session_id`: the base attributes, then the session id, all as strings.
fn render(base: &Vec<(String, String)>, session_id: &String) -> (fields: Fields)
    ensures
        string_fields_view(fields@) == attrs_view(base@).push((session_id_key(), session_id@)),
        forall|i: int| 0 <= i < fields@.len() ==> (#[trigger] fields@[i]).1 is String,
{
    let mut fields: Fields = Vec::new();
    let mut i: usize = 0;
    while i < base.len()
        invariant
            i <= base@.len(),
            string_fields_view(fields@) == attrs_view(base@).subrange(0, i as int),
            forall|k: int| 0 <= k < fields@.len() ==> (#[trigger] fields@[k]).1 is String,
        decreases base@.len() - i,
    {
        let ghost before = fields@;
        fields.push((base[i].0.clone(), Value::String(base[i].1.clone())));
        assert(string_fields_view(fields@) =~= string_fields_view(before).push(attrs_view(base@)[i as int]));
        assert(attrs_view(base@).subrange(0, i + 1) =~= attrs_view(base@).subrange(0, i as int).push(
            attrs_view(base@)[i as int],
        ));
        i += 1;
    }
    assert(attrs_view(base@).subrange(0, base@.len() as int) =~= attrs_view(base@));
    let ghost before = fields@;
    fields.push(("session.id".to_owned(), Value::String(session_id.clone())));
    proof {
        reveal_strlit("session.id");
    }
    assert(string_fields_view(fields@) =~= string_fields_view(before).push((session_id_key(), session_id@)));
    fields
}

/// Appends `(key, value)` when a value was reported and is not empty.
fn push_location(attrs: &mut Vec<(String, String)>, key: &str, value: &Option<String>)
    ensures
        attrs_view(final(attrs)@) == attrs_view(old(attrs)@) + location_attr(key@, opt_view(*value)),
{
    let ghost before = attrs_view(attrs@);
    match value {
        Some(v) => {
            if !v.as_str().is_empty() {
                attrs.push((key.to_owned(), v.clone()));
                assert(attrs_view(attrs@) =~= before + seq![(key@, v@)]);
            } else {
                assert(attrs_view(attrs@) =~= before + Seq::<Attr>::empty());
            }
        },
        None => {
            assert(attrs_view(attrs@) =~= before + Seq::<Attr>::empty());
        },
    }
}

/// Merging a location twice is the same as merging the second one alone: locations replace each other.
pub proof fn a_location_replaces_the_last(attrs: Seq<Attr>, first: Geolocation, second: Geolocation)
    ensures
        located(located(attrs, first), second) == located(attrs, second),
{
    let once = located(attrs, first);
    let tail = location_attr(country_key(), opt_view(first.country)) + location_attr(
        region_key(),
        opt_view(first.region),
    ) + location_attr(city_key(), opt_view(first.city));
    assert(once =~= without_location(attrs) + tail);
    lemma_without_location_drops(without_location(attrs), tail);
    lemma_without_location_idempotent(attrs);
}

/// Dropping location attributes from a list followed by location attributes only drops the tail.
proof fn lemma_without_location_drops(head: Seq<Attr>, tail: Seq<Attr>)
    requires
        forall|i: int| 0 <= i < tail.len() ==> is_location_key(#[trigger] tail[i].0),
    ensures
        without_location(head + tail) == without_location(head),
    decreases tail.len(),
{
    if tail.len() > 0 {
        assert((head + tail).drop_last() =~= head + tail.drop_last());
        lemma_without_location_drops(head, tail.drop_last());
    } else {
        assert(head + tail =~= head);
    }
}

/// A list without location attributes has none left to drop.
proof fn lemma_without_location_idempotent(attrs: Seq<Attr>)
    ensures
        without_location(without_location(attrs)) == without_location(attrs),
    decreases attrs.len(),
{
    if attrs.len() > 0 {
        lemma_without_location_idempotent(attrs.drop_last());
        let init = without_location(attrs.drop_last());
        if !is_location_key(attrs.last().0) {
            assert(init.push(attrs.last()).drop_last() =~= init);
        }
    }
}

} // verus!
