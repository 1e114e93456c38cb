//! The shapes that travel from an emitting thread, through a [`Buffer`](super::buffer::Buffer), to the exporter.

use vstd::prelude::*;

use std::sync::Arc;

use super::enrichment::Attributes;
use super::level::Level;
use super::trace::ids::{SpanId, TraceId};
use super::trace::span_context::SpanContext;
use super::value::Fields;

verus! {

/// One log record, captured at the call site and waiting to be exported.
#[derive(Debug)]
pub struct LogRecord {
    /// When the record was emitted, in nanoseconds since the Unix epoch.
    pub time_unix_nano: u64,
    /// Its severity.
    pub level: Level,
    /// The message, which becomes the OTLP record body.
    pub body: String,
    /// The key/value pairs supplied at the call site.
    pub fields: Fields,
    /// The enrichment current when the record was emitted, shared with every record emitted under it.
    pub enrichment: Arc<Attributes>,
    /// The enclosing span, when there was one: what lets a backend put a log next to its trace.
    pub trace_id: Option<TraceId>,
    /// The enclosing span's own id, present exactly when `trace_id` is.
    pub span_id: Option<SpanId>,
}

/// A span's outcome, as far as a trace backend is concerned.
///
/// Only failure is ever set. OTLP's third state, `Ok`, means "a person has checked this and it is fine", which no
/// instrumentation can say on its own; an unset status is what a successful span normally carries.
#[derive(Debug, Clone, PartialEq, Eq)]
pub enum Status {
    /// Nothing was said about the outcome. Encoded as no `status` at all.
    Unset,
    /// The work failed, for the reason given.
    Error(String),
}

/// A point-in-time event recorded on a span.
#[derive(Debug)]
pub struct SpanEvent {
    /// When it happened.
    pub time_unix_nano: u64,
    /// What happened.
    pub name: String,
    /// Any fields attached to it.
    pub attributes: Fields,
}

/// One finished span.
#[derive(Debug)]
pub struct SpanRecord {
    /// The trace this span belongs to.
    pub trace_id: TraceId,
    /// This span's identifier.
    pub span_id: SpanId,
    /// The enclosing span, absent for a root span.
    pub parent_span_id: Option<SpanId>,
    /// The span name.
    pub name: String,
    /// When the span opened.
    pub start_unix_nano: u64,
    /// When it closed.
    pub end_unix_nano: u64,
    /// Fields from the call site, plus anything added while it was open.
    pub attributes: Fields,
    /// Point-in-time events recorded inside the span.
    pub events: Vec<SpanEvent>,
    /// Other spans this one is causally related to without being their child.
    pub links: Vec<SpanContext>,
    /// Whether the span's work failed.
    pub status: Status,
    /// The enrichment current when the span opened.
    pub enrichment: Arc<Attributes>,
}

} // verus!
