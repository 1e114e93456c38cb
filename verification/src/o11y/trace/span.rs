//! The guard that keeps a span open, and the form a span takes while a future owns it.

use std::sync::Arc;

use vstd::prelude::*;

use super::ids::{IdGenerator, SpanId, all_zero};
use super::stack::{SpanStack, SpanState, finished, last_with_id};
use crate::o11y::enrichment::Attributes;
use crate::o11y::record::SpanRecord;
use crate::o11y::value::Fields;

verus! {

/// An open span, which the application closes when its guard drops.
///
/// The guard holds only the span's id; the live state sits on the thread's [`SpanStack`]. A span that was created
/// while tracing was off holds nothing and records nothing.
#[derive(Debug)]
pub struct Span {
    /// The stack entry this guard owns, or `None` when tracing was off when it was created.
    entered: Option<SpanId>,
}

/// What closing a guard that owns `entered` does to `before`: the record it yields, and the stack left behind.
pub open spec fn closed_span(before: Seq<SpanState>, entered: Option<SpanId>, end: u64) -> (Option<SpanRecord>, Seq<
    SpanState,
>) {
    match entered {
        None => (None, before),
        Some(id) => match last_with_id(before, id.0@) {
            None => (None, before),
            Some(i) => (Some(finished(before[i], end)), before.remove(i)),
        },
    }
}

impl Span {
    /// The id of the stack entry this guard owns, if any.
    pub closed spec fn entered(self) -> Option<SpanId> {
        self.entered
    }

    /// Opens a span named `name` at `now` and pushes it onto `stack`: under the innermost open span, in its trace,
    /// or as the root of a fresh trace when nothing is open.
    pub fn __enter(
        stack: &mut SpanStack,
        ids: &mut IdGenerator,
        name: String,
        attributes: Fields,
        now: u64,
        enrichment: Arc<Attributes>,
    ) -> (span: Self)
        requires
            old(ids).wf(),
        ensures
            final(ids).wf(),
            final(stack)@.len() == old(stack)@.len() + 1,
            final(stack)@.drop_last() == old(stack)@,
            span.entered() == Some(final(stack)@.last().span_id),
            final(stack)@.last().name == name,
            final(stack)@.last().attributes == attributes,
            final(stack)@.last().start_unix_nano == now,
            final(stack)@.last().events@.len() == 0,
            final(stack)@.last().enrichment == enrichment,
            !all_zero(final(stack)@.last().span_id.0@),
            old(stack)@.len() > 0 ==> final(stack)@.last().trace_id == old(stack)@.last().trace_id
                && final(stack)@.last().parent_span_id == Some(old(stack)@.last().span_id),
            old(stack)@.len() == 0 ==> final(stack)@.last().parent_span_id is None && !all_zero(
                final(stack)@.last().trace_id.0@,
            ),
    {
        let (trace_id, parent_span_id) = stack.inherit(ids);
        let state = SpanState::open(ids, trace_id, parent_span_id, name, attributes, now, enrichment);
        let span_id = state.span_id;
        stack.push(state);
        assert(stack@.drop_last() =~= old(stack)@);
        Span { entered: Some(span_id) }
    }

    /// A span that records nothing, returned when tracing is off.
    pub fn __disabled() -> (span: Self)
        ensures
            span.entered() is None,
    {
        Span { entered: None }
    }

    /// Whether this span is recording.
    pub fn is_recording(&self) -> (r: bool)
        ensures
            r == self.entered() is Some,
    {
        self.entered.is_some()
    }

    /// Closes the span at `end`: takes its entry off `stack` and hands back the record for the exporter. A span
    /// that records nothing, or whose entry is no longer on the stack, yields nothing and leaves the stack alone.
    pub fn close(self, stack: &mut SpanStack, end: u64) -> (r: Option<SpanRecord>)
        ensures
            (r, final(stack)@) == closed_span(old(stack)@, self.entered(), end),
    {
        match self.entered {
            None => None,
            Some(id) => match stack.remove(&id) {
                None => None,
                Some(state) => Some(state.finish(end)),
            },
        }
    }

    /// Takes the span off `stack` without closing it, handing ownership to a future that enters it around each
    /// poll.
    pub fn detach(self, stack: &mut SpanStack) -> (p: PendingSpan)
        ensures
            p.id() == self.entered(),
            match self.entered() {
                None => p.state() is None && final(stack)@ == old(stack)@,
                Some(id) => match last_with_id(old(stack)@, id.0@) {
                    None => p.state() is None && final(stack)@ == old(stack)@,
                    Some(i) => p.state() == Some(old(stack)@[i]) && final(stack)@ == old(stack)@.remove(i),
                },
            },
    {
        let state = match self.entered {
            None => None,
            Some(id) => stack.remove(&id),
        };
        PendingSpan { id: self.entered, state }
    }
}

/// A span lifted off the thread's stack, to be re-entered around each poll of a future.
#[derive(Debug)]
pub struct PendingSpan {
    /// The span's identifier, or `None` when tracing was off.
    id: Option<SpanId>,
    /// The span's state while it is not on a thread's stack; `None` while entered.
    state: Option<SpanState>,
}

impl PendingSpan {
    /// The span's identifier, or `None` when tracing was off.
    pub closed spec fn id(self) -> Option<SpanId> {
        self.id
    }

    /// The span's state while it is off the stack.
    pub closed spec fn state(self) -> Option<SpanState> {
        self.state
    }

    /// Pushes the span onto `stack` for the duration of one poll.
    pub fn enter(&mut self, stack: &mut SpanStack)
        ensures
            final(self).id() == old(self).id(),
            final(self).state() is None,
            match old(self).state() {
                None => final(stack)@ == old(stack)@,
                Some(state) => final(stack)@ == old(stack)@.push(state),
            },
    {
        if let Some(state) = self.state.take() {
            stack.push(state);
        }
    }

    /// Takes the span back off `stack` when the poll returns.
    pub fn exit(&mut self, stack: &mut SpanStack)
        ensures
            final(self).id() == old(self).id(),
            match old(self).id() {
                None => final(self).state() == old(self).state() && final(stack)@ == old(stack)@,
                Some(id) => match last_with_id(old(stack)@, id.0@) {
                    None => final(self).state() is None && final(stack)@ == old(stack)@,
                    Some(i) => final(self).state() == Some(old(stack)@[i]) && final(stack)@ == old(
                        stack,
                    )@.remove(i),
                },
            },
    {
        if let Some(id) = self.id {
            self.state = stack.remove(&id);
        }
    }

    /// Closes the span at `end` and hands back its record. Idempotent: afterwards the span is gone and a second
    /// call yields nothing.
    pub fn finish(&mut self, stack: &mut SpanStack, end: u64) -> (r: Option<SpanRecord>)
        ensures
            final(self).id() is None,
            final(self).state() is None,
            old(self).id() is None ==> final(stack)@ == old(stack)@ && r == (match old(self).state() {
                None => None,
                Some(state) => Some(finished(state, end)),
            }),
    {
        self.exit(stack);
        let r = match self.state.take() {
            None => None,
            Some(state) => Some(state.finish(end)),
        };
        self.id = None;
        r
    }
}

/// Entering and closing balance: closing the guard of the span just pushed takes exactly that span off again,
/// leaving the stack as it was before, and yields its record.
pub proof fn closing_undoes_entering(before: Seq<SpanState>, state: SpanState, end: u64)
    ensures
        closed_span(before.push(state), Some(state.span_id), end) == (Some(finished(state, end)), before),
{
    assert(before.push(state).remove(before.len() as int) =~= before);
}

} // verus!
