//! Log records whose level and fields are decided at runtime.
//!
//! The call-site form — macros that consult the level gate before evaluating any field — belongs to the
//! application; these are the functions it calls once the level check has succeeded, and the one a caller assembling a record
//! from configuration uses directly.

use vstd::prelude::*;

use super::level::Level;
use super::pipeline::{Runtime, context_ids, log_queued, logged};
use super::trace::span_context::SpanContext;
use super::trace::stack::SpanStack;
use super::value::Fields;

pub use super::gate::enabled;

verus! {

/// Records a message at `now`, attached to the innermost span open on `stack`, if there is one, and returns whether
/// the export thread should be woken.
///
/// **It does not check the level gate**, so a caller that builds its fields at any cost should ask [`enabled`]
/// first, as the macros do. A record emitted with no pipeline installed is discarded.
pub fn emit(
    runtime: &mut Runtime,
    stack: &SpanStack,
    level: Level,
    message: String,
    fields: Fields,
    now: u64,
) -> (wake: bool)
    requires
        old(runtime).wf(),
    ensures
        final(runtime).wf(),
        final(runtime).gates() == old(runtime).gates(),
        final(runtime).started() == old(runtime).started(),
        old(runtime).pipeline() is None ==> !wake && final(runtime).pipeline() is None,
        old(runtime).pipeline() matches Some(p) ==> (p.logs.drops() == u64::MAX ==> !wake && final(runtime).pipeline()
            == old(runtime).pipeline()),
        old(runtime).pipeline() matches Some(p) ==> (p.logs.drops() < u64::MAX ==> (final(runtime).pipeline() matches Some(
            q,
        ) && log_queued(p, q) && logged(
            q.logs.entries().last(),
            level,
            message,
            fields,
            now,
            if stack@.len() == 0 {
                None
            } else {
                Some((stack@.last().trace_id.0@, stack@.last().span_id.0@))
            },
        ) && q.logs.entries().last().enrichment.generation == p.enrichment@.generation && wake == (
        q.logs.entries().len() == p.config.max_batch_size))),
{
    let context = stack.current_context();
    runtime.record_log(level, message, fields, now, context)
}

/// Records a message at `now`, attached to the span `context` names rather than to whatever is open on the
/// calling thread: for work done for a span opened elsewhere. Checking [`enabled`] first is the caller's job.
pub fn emit_in(
    runtime: &mut Runtime,
    context: SpanContext,
    level: Level,
    message: String,
    fields: Fields,
    now: u64,
) -> (wake: bool)
    requires
        old(runtime).wf(),
    ensures
        final(runtime).wf(),
        final(runtime).gates() == old(runtime).gates(),
        final(runtime).started() == old(runtime).started(),
        old(runtime).pipeline() is None ==> !wake && final(runtime).pipeline() is None,
        old(runtime).pipeline() matches Some(p) ==> (p.logs.drops() == u64::MAX ==> !wake && final(runtime).pipeline()
            == old(runtime).pipeline()),
        old(runtime).pipeline() matches Some(p) ==> (p.logs.drops() < u64::MAX ==> (final(runtime).pipeline() matches Some(
            q,
        ) && log_queued(p, q) && logged(q.logs.entries().last(), level, message, fields, now, context_ids(Some(context)))
            && q.logs.entries().last().enrichment.generation == p.enrichment@.generation && wake == (
        q.logs.entries().len() == p.config.max_batch_size))),
{
    runtime.record_log(level, message, fields, now, Some(context))
}

} // verus!
