//! Spans that belong to a value rather than to a thread.
//!
//! A guard's span lives on the thread's stack. An owned span lives in whatever holds it — a request struct, a
//! session, a bridge from another tracing system — so it can be opened on one thread and closed on another, and it
//! never affects what [`current`](super::current::current) sees.

use std::sync::Arc;

use vstd::prelude::*;

use super::ids::{IdGenerator, SpanId, TraceId, all_zero};
use super::span_context::SpanContext;
use super::stack::{SpanStack, SpanState, finished};
use crate::o11y::enrichment::Attributes;
use crate::o11y::gate::Gate;
use crate::o11y::record::{SpanRecord, Status};
use crate::o11y::value::{Fields, Value};

verus! {

/// Where an owned span sits in its trace.
#[derive(Debug, Clone, Copy)]
pub enum Parent {
    /// Under the innermost span open on this thread, or as a new root when none is.
    Current,
    /// Under the span `context` names, typically one parsed from an incoming `traceparent` header.
    Context(SpanContext),
    /// As the root of a new trace, whatever is open on this thread.
    Root,
}

/// A span owned by a value. It records nothing when tracing was off when it started.
#[derive(Debug)]
pub struct OwnedSpan {
    /// The span's state, or `None` when it records nothing.
    inner: Option<SpanState>,
}

impl OwnedSpan {
    /// The span's state, or `None` when it records nothing.
    pub closed spec fn state(self) -> Option<SpanState> {
        self.inner
    }
}

/// Starts a span named `name` at `now`, placed in its trace as `parent` says, carrying `fields` — or a span that
/// records nothing, when the tracing gate is shut.
pub fn start(
    gate: &Gate,
    stack: &SpanStack,
    ids: &mut IdGenerator,
    name: String,
    parent: Parent,
    fields: Fields,
    now: u64,
    enrichment: Arc<Attributes>,
) -> (span: OwnedSpan)
    requires
        old(ids).wf(),
    ensures
        final(ids).wf(),
        !gate.tracing ==> span.state() is None,
        gate.tracing ==> (span.state() matches Some(s) && s.name == name && s.attributes == fields
            && s.start_unix_nano == now && s.events@.len() == 0 && s.status is Unset && !all_zero(s.span_id.0@)
            && match parent {
            Parent::Context(c) => s.trace_id.0@ == c.trace_bytes() && (s.parent_span_id matches Some(p) && p.0@
                == c.span_bytes()),
            Parent::Root => s.parent_span_id is None && !all_zero(s.trace_id.0@),
            Parent::Current => if stack@.len() > 0 {
                s.trace_id == stack@.last().trace_id && s.parent_span_id == Some(stack@.last().span_id)
            } else {
                s.parent_span_id is None && !all_zero(s.trace_id.0@)
            },
        }),
{
    if !gate.tracing {
        return OwnedSpan { inner: None };
    }
    let (trace_id, parent_span_id) = match parent {
        Parent::Current => stack.inherit(ids),
        Parent::Context(context) => (TraceId(context.trace_id()), Some(SpanId(context.span_id()))),
        Parent::Root => (ids.new_trace_id(), None),
    };
    let state = SpanState::open(ids, trace_id, parent_span_id, name, fields, now, enrichment);
    OwnedSpan { inner: Some(state) }
}

impl OwnedSpan {
    /// The span's context, for handing to a child elsewhere, or `None` when it records nothing.
    pub fn context(&self) -> (c: Option<SpanContext>)
        ensures
            self.state() is None ==> c is None,
            self.state() matches Some(s) ==> (c matches Some(ctx) && ctx.trace_bytes() == s.trace_id.0@
                && ctx.span_bytes() == s.span_id.0@),
    {
        match &self.inner {
            None => None,
            Some(state) => Some(state.context()),
        }
    }

    /// Whether the span is recording.
    pub fn is_recording(&self) -> (r: bool)
        ensures
            r == self.state() is Some,
    {
        self.inner.is_some()
    }

    /// Attaches an attribute.
    pub fn set_attribute(&mut self, key: String, value: Value)
        ensures
            old(self).state() is None ==> final(self).state() is None,
            old(self).state() matches Some(s) ==> (final(self).state() matches Some(t) && t.attributes@
                == s.attributes@.push((key, value)) && super::stack::same_but_attributes(s, t)),
    {
        if let Some(state) = &mut self.inner {
            state.set_attribute(key, value);
        }
    }

    /// Records a point-in-time event at `now`.
    pub fn add_event(&mut self, name: String, now: u64)
        ensures
            old(self).state() is None ==> final(self).state() is None,
            old(self).state() matches Some(s) ==> (final(self).state() matches Some(t) && t.events@.len()
                == s.events@.len() + 1 && t.events@.last().name == name && t.events@.last().time_unix_nano == now
                && t.events@.last().attributes@.len() == 0 && super::stack::same_but_events(s, t)),
    {
        self.add_event_with(name, Vec::new(), now);
    }

    /// Records a point-in-time event at `now` carrying its own fields.
    pub fn add_event_with(&mut self, name: String, attributes: Fields, now: u64)
        ensures
            old(self).state() is None ==> final(self).state() is None,
            old(self).state() matches Some(s) ==> (final(self).state() matches Some(t) && t.events@
                == s.events@.push(crate::o11y::record::SpanEvent { time_unix_nano: now, name, attributes })
                && super::stack::same_but_events(s, t)),
    {
        if let Some(state) = &mut self.inner {
            state.add_event(name, attributes, now);
        }
    }

    /// Links the span to another it is causally related to without being its child.
    pub fn add_link(&mut self, context: SpanContext)
        ensures
            old(self).state() is None ==> final(self).state() is None,
            old(self).state() matches Some(s) ==> (final(self).state() matches Some(t) && t.links@
                == s.links@.push(context) && t.span_id == s.span_id && t.attributes == s.attributes && t.events
                == s.events && t.status == s.status),
    {
        if let Some(state) = &mut self.inner {
            state.links.push(context);
        }
    }

    /// Records an error: the span is marked failed, with an `exception` event carrying `message`, the error's
    /// `Display` form.
    pub fn set_error(&mut self, message: String, now: u64)
        ensures
            old(self).state() is None ==> final(self).state() is None,
            old(self).state() matches Some(s) ==> (final(self).state() matches Some(t) && t.status == Status::Error(
                message,
            ) && t.events@.len() == s.events@.len() + 1 && t.events@.drop_last() == s.events@),
    {
        if let Some(state) = &mut self.inner {
            state.set_error(message, now);
        }
    }

    /// Marks the span failed with `message`, without recording an event.
    pub fn fail(&mut self, message: String)
        ensures
            old(self).state() is None ==> final(self).state() is None,
            old(self).state() matches Some(s) ==> final(self).state() == Some(
                SpanState { status: Status::Error(message), ..s },
            ),
    {
        if let Some(state) = &mut self.inner {
            state.fail(message);
        }
    }

    /// Closes the span at `now`, handing back the record to export — unless it records nothing, or the tracing
    /// gate has shut since it started: a span that outlives the end of telemetry is discarded, like any record
    /// emitted after it, since no export thread is left to drain it.
    pub fn end(self, gate: &Gate, now: u64) -> (r: Option<SpanRecord>)
        ensures
            match self.state() {
                None => r is None,
                Some(s) => if gate.tracing {
                    r == Some(finished(s, now))
                } else {
                    r is None
                },
            },
    {
        match self.inner {
            None => None,
            Some(state) => if gate.tracing {
                Some(state.finish(now))
            } else {
                None
            },
        }
    }
}

} // verus!
