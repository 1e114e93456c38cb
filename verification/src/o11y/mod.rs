//! Observability: logs, metrics and traces, and the rules that shape what is exported.
//!
//! The process-wide plumbing — the global pipeline, the export thread, the HTTP client, thread-local span stacks —
//! belongs to the application layer. What lives here is the state each of those holds and every decision made on
//! it: the level gate, the bounded drop-oldest buffer, metric series and their cap, trace identifiers and the W3C
//! `traceparent` form, the per-thread span stack, the control state the export thread answers to, and the
//! OTLP/JSON payloads.

pub mod bridge;
pub mod buffer;
pub mod builder;
pub mod config;
pub mod enrichment;
pub mod environment;
pub mod error;
pub mod export;
pub mod gate;
pub mod geolocation;
pub mod json;
pub mod level;
pub mod log;
pub mod metric;
pub mod otlp;
pub mod pipeline;
pub mod record;
pub mod signal;
pub mod trace;
pub mod value;

pub use environment::Environment;
pub use level::Level;
pub use signal::Signal;

use vstd::prelude::*;

use enrichment::hyphenated_uuid;
use pipeline::{Runtime, flush_asked, shut_down};

verus! {

/// Stops telemetry: shuts the gates, then tells the export thread to drain what is still buffered and exit.
/// Returns whether there is a thread to join, which the application waits for, for at most one export timeout.
///
/// Idempotent, and safe to call without a start; records emitted afterwards are discarded.
pub fn shutdown(runtime: &mut Runtime) -> (join: bool)
    requires
        old(runtime).wf(),
    ensures
        final(runtime).wf(),
        final(runtime).gates() == (gate::Gate { threshold: gate::CLOSED, tracing: false }),
        !final(runtime).running(),
        join == (old(runtime).pipeline() matches Some(p) && p.worker_running),
        old(runtime).pipeline() is None ==> final(runtime).pipeline() is None,
        old(runtime).pipeline() matches Some(p) ==> final(runtime).pipeline() == Some(shut_down(p)),
{
    runtime.shutdown()
}

/// Asks for everything buffered so far to be exported, returning the cycle to wait for — `None`, and nothing to
/// wait for, when telemetry is not running.
pub fn flush(runtime: &mut Runtime) -> (target: Option<u64>)
    requires
        old(runtime).wf(),
    ensures
        final(runtime).wf(),
        final(runtime).gates() == old(runtime).gates(),
        final(runtime).started() == old(runtime).started(),
        !old(runtime).running() ==> target is None && final(runtime).pipeline() == old(runtime).pipeline(),
        old(runtime).running() && old(runtime).pipeline()->0.control.generation == u64::MAX ==> target is None
            && final(runtime).pipeline() == old(runtime).pipeline(),
        old(runtime).running() && old(runtime).pipeline()->0.control.generation < u64::MAX ==> ({
            let p = old(runtime).pipeline()->0;
            &&& target == Some((p.control.generation + 1) as u64)
            &&& final(runtime).pipeline() == Some(flush_asked(p))
        }),
{
    runtime.flush()
}

/// Whether telemetry is installed and exporting: `false` before it starts, after it stops, and when it was started
/// with collection off.
pub fn is_enabled(runtime: &Runtime) -> (r: bool)
    ensures
        r == runtime.running(),
{
    runtime.is_enabled()
}

/// The session id attached to records right now, or `None` if telemetry is not running.
pub fn session_id(runtime: &Runtime) -> (r: Option<String>)
    requires
        runtime.wf(),
    ensures
        !runtime.running() ==> r is None,
        runtime.running() ==> (r matches Some(s) && s@ == runtime.pipeline()->0.enrichment@.session
            && hyphenated_uuid(s@)),
{
    runtime.session_id()
}

/// Assigns a fresh session id to everything recorded from now on; records already buffered keep the session they
/// were recorded under.
pub fn renew_session(runtime: &mut Runtime)
    requires
        old(runtime).wf(),
    ensures
        final(runtime).wf(),
        final(runtime).gates() == old(runtime).gates(),
        final(runtime).started() == old(runtime).started(),
        final(runtime).running() == old(runtime).running(),
        old(runtime).pipeline() is None ==> final(runtime).pipeline() is None,
        old(runtime).pipeline() matches Some(p) ==> (final(runtime).pipeline() matches Some(q) && q == (
        pipeline::Installed { enrichment: q.enrichment, ..p }) && q.enrichment@.base == p.enrichment@.base
            && q.enrichment@.generation == p.enrichment@.generation.wrapping_add(1) && hyphenated_uuid(
            q.enrichment@.session,
        )),
{
    runtime.renew_session()
}

} // verus!
