//! The stack of spans open on one thread, innermost last.
//!
//! A stack, because spans nest; one per thread, because a span's scope is a stretch of one thread's execution. The
//! application keeps one in a thread-local and hands it to the operations here.

use std::sync::Arc;

use vstd::prelude::*;

use super::ids::{IdGenerator, SpanId, TraceId};
use super::span_context::SpanContext;
use crate::o11y::enrichment::Attributes;
use crate::o11y::record::{SpanEvent, SpanRecord, Status};
use crate::o11y::value::{Fields, Value};

verus! {

/// An open span. The live state lives on the stack rather than in the guard, which is what lets
/// [`current`](super::current::current) reach it from anywhere in the call tree.
#[derive(Debug)]
pub struct SpanState {
    /// The trace this span belongs to, inherited from its parent.
    pub trace_id: TraceId,
    /// This span's own identifier.
    pub span_id: SpanId,
    /// The enclosing span, absent for a root span.
    pub parent_span_id: Option<SpanId>,
    /// The span name.
    pub name: String,
    /// When the span opened.
    pub start_unix_nano: u64,
    /// Fields from the call site, plus anything added later.
    pub attributes: Fields,
    /// Point-in-time events recorded inside the span.
    pub events: Vec<SpanEvent>,
    /// Spans this one is causally related to without being their child.
    pub links: Vec<SpanContext>,
    /// Whether the span's work failed.
    pub status: Status,
    /// The enrichment current when the span opened.
    pub enrichment: Arc<Attributes>,
}

/// The event name the OpenTelemetry conventions give a recorded error.
pub open spec fn exception_name() -> Seq<char> {
    seq!['e', 'x', 'c', 'e', 'p', 't', 'i', 'o', 'n']
}

/// The attribute key the OpenTelemetry conventions give an error's message.
pub open spec fn exception_message_key() -> Seq<char> {
    "exception.message"@
}

impl SpanState {
    /// Opens a span under `parent_span_id` in `trace_id`, with a fresh id from `ids`, starting at `now`.
    pub fn open(
        ids: &mut IdGenerator,
        trace_id: TraceId,
        parent_span_id: Option<SpanId>,
        name: String,
        attributes: Fields,
        now: u64,
        enrichment: Arc<Attributes>,
    ) -> (s: Self)
        requires
            old(ids).wf(),
        ensures
            final(ids).wf(),
            s.trace_id == trace_id,
            s.parent_span_id == parent_span_id,
            s.name == name,
            s.start_unix_nano == now,
            s.attributes == attributes,
            s.events@.len() == 0,
            s.links@.len() == 0,
            s.status is Unset,
            s.enrichment == enrichment,
            !super::ids::all_zero(s.span_id.0@),
    {
        SpanState {
            trace_id,
            span_id: ids.new_span_id(),
            parent_span_id,
            name,
            start_unix_nano: now,
            attributes,
            events: Vec::new(),
            links: Vec::new(),
            status: Status::Unset,
            enrichment,
        }
    }

    /// This span's context.
    pub fn context(&self) -> (c: SpanContext)
        ensures
            c.trace_bytes() == self.trace_id.0@,
            c.span_bytes() == self.span_id.0@,
    {
        SpanContext::of(self.trace_id, self.span_id)
    }

    /// Closes the span at `end`, turning it into the record the exporter sends.
    pub fn finish(self, end: u64) -> (r: SpanRecord)
        ensures
            r == finished(self, end),
    {
        SpanRecord {
            trace_id: self.trace_id,
            span_id: self.span_id,
            parent_span_id: self.parent_span_id,
            name: self.name,
            start_unix_nano: self.start_unix_nano,
            end_unix_nano: end,
            attributes: self.attributes,
            events: self.events,
            links: self.links,
            status: self.status,
            enrichment: self.enrichment,
        }
    }
}

/// The record a span closed at `end` becomes: everything it held, and the time it closed.
pub open spec fn finished(s: SpanState, end: u64) -> SpanRecord {
    SpanRecord {
        trace_id: s.trace_id,
        span_id: s.span_id,
        parent_span_id: s.parent_span_id,
        name: s.name,
        start_unix_nano: s.start_unix_nano,
        end_unix_nano: end,
        attributes: s.attributes,
        events: s.events,
        links: s.links,
        status: s.status,
        enrichment: s.enrichment,
    }
}

impl SpanState {
    /// Attaches an attribute.
    pub fn set_attribute(&mut self, key: String, value: Value)
        ensures
            final(self).attributes@ == old(self).attributes@.push((key, value)),
            same_but_attributes(*old(self), *final(self)),
    {
        self.attributes.push((key, value));
    }

    /// Records a point-in-time event at `now`.
    pub fn add_event(&mut self, name: String, attributes: Fields, now: u64)
        ensures
            final(self).events@ == old(self).events@.push(SpanEvent { time_unix_nano: now, name, attributes }),
            same_but_events(*old(self), *final(self)),
    {
        self.events.push(SpanEvent { time_unix_nano: now, name, attributes });
    }

    /// Marks the span failed with `message`, without recording an event.
    pub fn fail(&mut self, message: String)
        ensures
            *final(self) == (SpanState { status: Status::Error(message), ..*old(self) }),
    {
        self.status = Status::Error(message);
    }

    /// Marks the span failed and records the `exception` event the OpenTelemetry conventions describe, carrying
    /// `message` under `exception.message`. The status is what a trace backend reads as "this span failed"; the
    /// event is where it keeps why.
    pub fn set_error(&mut self, message: String, now: u64)
        ensures
            final(self).status == Status::Error(message),
            final(self).events@.len() == old(self).events@.len() + 1,
            final(self).events@.drop_last() == old(self).events@,
            final(self).events@.last().name@ == exception_name(),
            final(self).events@.last().time_unix_nano == now,
            final(self).events@.last().attributes@.len() == 1,
            final(self).events@.last().attributes@[0].0@ == exception_message_key(),
            final(self).events@.last().attributes@[0].1 == Value::String(message),
            final(self).attributes == old(self).attributes,
            final(self).span_id == old(self).span_id,
            final(self).trace_id == old(self).trace_id,
    {
        let mut attributes: Fields = Vec::new();
        attributes.push(("exception.message".to_owned(), Value::String(message.clone())));
        let ghost before = self.events@;
        self.events.push(SpanEvent { time_unix_nano: now, name: "exception".to_owned(), attributes });
        proof {
            reveal_strlit("exception");
            reveal_strlit("exception.message");
        }
        assert(self.events@.drop_last() =~= before);
        self.status = Status::Error(message);
    }
}

/// The spans open on one thread, innermost last.
#[derive(Debug)]
pub struct SpanStack {
    /// The open spans, outermost first.
    spans: Vec<SpanState>,
}

/// The position of the innermost span with the id `id`, or `None` when no open span has it.
pub open spec fn last_with_id(spans: Seq<SpanState>, id: Seq<u8>) -> Option<int>
    decreases spans.len(),
{
    if spans.len() == 0 {
        None
    } else if spans.last().span_id.0@ == id {
        Some(spans.len() - 1)
    } else {
        last_with_id(spans.drop_last(), id)
    }
}

/// A found position lies on the stack and holds the id looked for.
proof fn lemma_last_with_id(spans: Seq<SpanState>, id: Seq<u8>)
    ensures
        last_with_id(spans, id) matches Some(i) ==> 0 <= i < spans.len() && spans[i].span_id.0@ == id && forall|
            k: int,
        |
            i < k < spans.len() ==> spans[k].span_id.0@ != id,
        last_with_id(spans, id) is None ==> forall|k: int| 0 <= k < spans.len() ==> spans[k].span_id.0@ != id,
    decreases spans.len(),
{
    if spans.len() > 0 {
        let init = spans.drop_last();
        lemma_last_with_id(init, id);
        assert forall|k: int| 0 <= k < init.len() implies init[k] == spans[k] by {}
    }
}

/// The two spans agree on everything but their attributes.
pub open spec fn same_but_attributes(a: SpanState, b: SpanState) -> bool {
    &&& a.trace_id == b.trace_id
    &&& a.span_id == b.span_id
    &&& a.parent_span_id == b.parent_span_id
    &&& a.name == b.name
    &&& a.start_unix_nano == b.start_unix_nano
    &&& a.events == b.events
    &&& a.links == b.links
    &&& a.status == b.status
    &&& a.enrichment == b.enrichment
}

/// The two spans agree on everything but their events.
pub open spec fn same_but_events(a: SpanState, b: SpanState) -> bool {
    &&& a.trace_id == b.trace_id
    &&& a.span_id == b.span_id
    &&& a.parent_span_id == b.parent_span_id
    &&& a.name == b.name
    &&& a.start_unix_nano == b.start_unix_nano
    &&& a.attributes == b.attributes
    &&& a.links == b.links
    &&& a.status == b.status
    &&& a.enrichment == b.enrichment
}

impl View for SpanStack {
    type V = Seq<SpanState>;

    closed spec fn view(&self) -> Seq<SpanState> {
        self.spans@
    }
}

impl SpanStack {
    /// A stack with no span open.
    pub fn new() -> (s: Self)
        ensures
            s@ == Seq::<SpanState>::empty(),
    {
        SpanStack { spans: Vec::new() }
    }

    /// How many spans are open.
    pub fn depth(&self) -> (n: usize)
        ensures
            n == self@.len(),
    {
        self.spans.len()
    }

    /// The context of the innermost open span, if there is one: what stamps a log record with the span it was
    /// emitted inside.
    pub fn current_context(&self) -> (c: Option<SpanContext>)
        ensures
            self@.len() == 0 ==> c is None,
            self@.len() > 0 ==> (c matches Some(ctx) && ctx.trace_bytes() == self@.last().trace_id.0@
                && ctx.span_bytes() == self@.last().span_id.0@),
    {
        let n = self.spans.len();
        if n == 0 {
            None
        } else {
            Some(self.spans[n - 1].context())
        }
    }

    /// The trace id and parent a span opened now would take: the innermost span's trace and its id, or a fresh
    /// trace from `ids` and no parent when nothing is open.
    pub fn inherit(&self, ids: &mut IdGenerator) -> (r: (TraceId, Option<SpanId>))
        requires
            old(ids).wf(),
        ensures
            final(ids).wf(),
            self@.len() > 0 ==> r.0 == self@.last().trace_id && r.1 == Some(self@.last().span_id),
            self@.len() == 0 ==> r.1 is None && !super::ids::all_zero(r.0.0@),
    {
        let n = self.spans.len();
        if n == 0 {
            (ids.new_trace_id(), None)
        } else {
            (self.spans[n - 1].trace_id, Some(self.spans[n - 1].span_id))
        }
    }

    /// Pushes an open span.
    pub fn push(&mut self, state: SpanState)
        ensures
            final(self)@ == old(self)@.push(state),
    {
        self.spans.push(state);
    }

    /// Removes the innermost span with `id`, wherever it sits on the stack.
    ///
    /// Normally it is the top, since guards drop in reverse order of creation. A guard stored in a struct, or moved
    /// into a collection, can drop out of order — and then the entries above it keep the parent they were given
    /// when they opened, which is the honest record of what actually nested inside what.
    pub fn remove(&mut self, id: &SpanId) -> (r: Option<SpanState>)
        ensures
            match last_with_id(old(self)@, id.0@) {
                None => r is None && final(self)@ == old(self)@,
                Some(i) => r == Some(old(self)@[i]) && final(self)@ == old(self)@.remove(i),
            },
    {
        proof {
            lemma_last_with_id(self@, id.0@);
        }
        let mut i = self.spans.len();
        while i > 0
            invariant
                self@ == old(self)@,
                i <= self@.len(),
                forall|k: int| i <= k < self@.len() ==> self@[k].span_id.0@ != id.0@,
                last_with_id(self@, id.0@) matches Some(p) ==> p < i,
            decreases i,
        {
            proof {
                lemma_last_with_id(self@, id.0@);
            }
            if self.spans[i - 1].span_id.same(id) {
                return Some(self.spans.remove(i - 1));
            }
            i -= 1;
        }
        None
    }

    /// Attaches an attribute to the innermost open span, doing nothing when none is open.
    pub fn set_attribute(&mut self, key: String, value: Value)
        ensures
            old(self)@.len() == 0 ==> final(self)@ == old(self)@,
            old(self)@.len() > 0 ==> {
                &&& final(self)@.len() == old(self)@.len()
                &&& final(self)@.drop_last() == old(self)@.drop_last()
                &&& final(self)@.last().attributes@ == old(self)@.last().attributes@.push((key, value))
                &&& same_but_attributes(old(self)@.last(), final(self)@.last())
            },
    {
        let n = self.spans.len();
        if n > 0 {
            let mut top = self.spans.pop().unwrap();
            top.attributes.push((key, value));
            self.spans.push(top);
        }
    }

    /// Records a point-in-time event on the innermost open span, doing nothing when none is open.
    pub fn add_event(&mut self, name: String, attributes: Fields, now: u64)
        ensures
            old(self)@.len() == 0 ==> final(self)@ == old(self)@,
            old(self)@.len() > 0 ==> {
                &&& final(self)@.len() == old(self)@.len()
                &&& final(self)@.drop_last() == old(self)@.drop_last()
                &&& final(self)@.last().events@ == old(self)@.last().events@.push(
                    SpanEvent { time_unix_nano: now, name, attributes },
                )
                &&& same_but_events(old(self)@.last(), final(self)@.last())
            },
    {
        let n = self.spans.len();
        if n > 0 {
            let mut top = self.spans.pop().unwrap();
            let ghost before = top.events@;
            top.events.push(SpanEvent { time_unix_nano: now, name, attributes });
            assert(top.events@.drop_last() =~= before);
            self.spans.push(top);
        }
    }
}

} // verus!
