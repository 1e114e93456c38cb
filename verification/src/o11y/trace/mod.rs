//! Spans: trace and span identifiers, the W3C `traceparent` form, and the per-thread stack of open spans.
//!
//! Spans nest by thread: a span opened inside another inherits its trace id and records it as its parent. Any log
//! record emitted while a span is open carries that span's trace and span ids, which is what lets a backend show a
//! trace and its logs together.

use vstd::prelude::*;

use super::gate::{Gate, tracing_enabled};

pub mod current;
pub mod ids;
pub mod owned;
pub mod span;
pub mod span_context;
pub mod stack;

pub use current::{Current, current};
pub use owned::{OwnedSpan, Parent, start};
pub use span::Span;
pub use span_context::SpanContext;

verus! {

/// Whether spans are being recorded: `false` before telemetry starts, after it stops, and when it was disabled.
pub fn enabled(gate: &Gate) -> (r: bool)
    ensures
        r == gate.tracing,
{
    tracing_enabled(gate)
}

} // verus!
