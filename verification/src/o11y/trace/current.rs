//! A handle to whichever span is open on the thread right now.

use vstd::prelude::*;

use super::ids::hex_text;
use super::stack::{SpanStack, exception_message_key, exception_name};
use crate::o11y::record::SpanEvent;
use crate::o11y::value::{Fields, Value};

verus! {

/// A handle to whichever span is open on the thread right now.
///
/// It lets code annotate a span it does not own — a helper deep in a call tree can add an attribute to whatever its
/// caller opened, without a span handle being threaded through every signature.
///
/// **Every method is a no-op when no span is open.** The alternative is an `Option` every call site has to unwrap,
/// for a failure that is not a failure; [`is_recording`](Current::is_recording) is there for the caller who does
/// need to know.
#[derive(Debug, Clone, Copy)]
pub struct Current(());

/// The handle to the span open right now. It borrows nothing and reads the stack on every call, so it always
/// means "whatever is current now" rather than whatever was current when it was obtained.
pub fn current() -> Current {
    Current(())
}

impl Current {
    /// Attaches an attribute to the open span.
    pub fn set_attribute(&self, stack: &mut SpanStack, key: String, value: Value)
        ensures
            old(stack)@.len() == 0 ==> final(stack)@ == old(stack)@,
            old(stack)@.len() > 0 ==> final(stack)@.drop_last() == old(stack)@.drop_last()
                && final(stack)@.last().attributes@ == old(stack)@.last().attributes@.push((key, value)),
    {
        stack.set_attribute(key, value);
    }

    /// Records a point-in-time event at `now` on the open span.
    pub fn add_event(&self, stack: &mut SpanStack, name: String, now: u64)
        ensures
            old(stack)@.len() == 0 ==> final(stack)@ == old(stack)@,
            old(stack)@.len() > 0 ==> final(stack)@.drop_last() == old(stack)@.drop_last()
                && final(stack)@.last().events@.len() == old(stack)@.last().events@.len() + 1
                && final(stack)@.last().events@.last().name == name
                && final(stack)@.last().events@.last().time_unix_nano == now
                && final(stack)@.last().events@.last().attributes@.len() == 0,
    {
        self.add_event_with(stack, name, Vec::new(), now);
    }

    /// Records a point-in-time event at `now` carrying its own fields.
    pub fn add_event_with(&self, stack: &mut SpanStack, name: String, attributes: Fields, now: u64)
        ensures
            old(stack)@.len() == 0 ==> final(stack)@ == old(stack)@,
            old(stack)@.len() > 0 ==> final(stack)@.drop_last() == old(stack)@.drop_last()
                && final(stack)@.last().events@ == old(stack)@.last().events@.push(
                SpanEvent { time_unix_nano: now, name, attributes },
            ),
    {
        stack.add_event(name, attributes, now);
    }

    /// Records an error on the open span, as an `exception` event carrying `message` — the error's `Display`
    /// form — under `exception.message`.
    pub fn set_error(&self, stack: &mut SpanStack, message: String, now: u64)
        ensures
            old(stack)@.len() == 0 ==> final(stack)@ == old(stack)@,
            old(stack)@.len() > 0 ==> final(stack)@.drop_last() == old(stack)@.drop_last()
                && final(stack)@.last().events@.len() == old(stack)@.last().events@.len() + 1
                && final(stack)@.last().events@.last().name@ == exception_name()
                && final(stack)@.last().events@.last().time_unix_nano == now
                && final(stack)@.last().events@.last().attributes@.len() == 1
                && final(stack)@.last().events@.last().attributes@[0].0@ == exception_message_key()
                && final(stack)@.last().events@.last().attributes@[0].1 == Value::String(message),
    {
        let mut attributes: Fields = Vec::new();
        attributes.push(("exception.message".to_owned(), Value::String(message)));
        let name = "exception".to_owned();
        proof {
            reveal_strlit("exception");
        }
        self.add_event_with(stack, name, attributes, now);
    }

    /// Whether a span is open.
    pub fn is_recording(&self, stack: &SpanStack) -> (r: bool)
        ensures
            r == (stack@.len() > 0),
    {
        stack.depth() > 0
    }

    /// The open span's trace id, as lowercase hex.
    pub fn trace_id(&self, stack: &SpanStack) -> (r: Option<String>)
        ensures
            stack@.len() == 0 ==> r is None,
            stack@.len() > 0 ==> (r matches Some(s) && s@ == hex_text(stack@.last().trace_id.0@)),
    {
        match stack.current_context() {
            None => None,
            Some(context) => Some(context.trace_id_hex()),
        }
    }

    /// The open span's own id, as lowercase hex.
    pub fn span_id(&self, stack: &SpanStack) -> (r: Option<String>)
        ensures
            stack@.len() == 0 ==> r is None,
            stack@.len() > 0 ==> (r matches Some(s) && s@ == hex_text(stack@.last().span_id.0@)),
    {
        match stack.current_context() {
            None => None,
            Some(context) => Some(context.span_id_hex()),
        }
    }
}

} // verus!
