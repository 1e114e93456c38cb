//! One export cycle, as the export thread runs it: what to report, what to post, and what a collector's answer
//! means. The thread itself, its HTTP client and the error callback belong to the application.

use vstd::prelude::*;

use super::error::O11yError;
use super::json::{Json, JsonView, jv};
use super::metric::registry::MetricSnapshot;
use super::otlp::{logs, logs_view, metrics, metrics_view, traces, traces_view};
use super::pipeline::{Batch, MAX_REJECTION_BODY, Runtime, rejection_body};
use super::record::{LogRecord, SpanRecord};
use super::signal::Signal;
use super::value::Value;

verus! {

/// The drop tallies an export cycle reports, log records first: one for each stream that lost records.
pub open spec fn drops_view(logs_dropped: u64, spans_dropped: u64) -> Seq<(Signal, u64)> {
    (if logs_dropped > 0 {
        seq![(Signal::Logs, logs_dropped)]
    } else {
        Seq::empty()
    }) + (if spans_dropped > 0 {
        seq![(Signal::Traces, spans_dropped)]
    } else {
        Seq::empty()
    })
}

/// The streams that lost records since the last export, with how many each lost.
pub fn drop_reports(batch: &Batch) -> (r: Vec<(Signal, u64)>)
    ensures
        r@ == drops_view(batch.logs_dropped, batch.spans_dropped),
{
    let mut r: Vec<(Signal, u64)> = Vec::new();
    if batch.logs_dropped > 0 {
        r.push((Signal::Logs, batch.logs_dropped));
    }
    if batch.spans_dropped > 0 {
        r.push((Signal::Traces, batch.spans_dropped));
    }
    assert(r@ =~= drops_view(batch.logs_dropped, batch.spans_dropped));
    r
}

/// The payloads an export cycle posts, in order: logs, then traces, then metrics, each only when there is
/// something to send. Logs and spans are encoded under the resource attributes `base`; the metrics under `base`
/// and the enrichment current at export time, stamped from `start` to `now`.
pub open spec fn payloads_view(
    log_records: Seq<LogRecord>,
    spans: Seq<SpanRecord>,
    snapshots: Seq<MetricSnapshot>,
    base: Seq<(String, Value)>,
    enrichment: Seq<(String, Value)>,
    start: u64,
    now: u64,
) -> Seq<(Signal, JsonView)> {
    (if log_records.len() > 0 {
        seq![(Signal::Logs, logs_view(log_records, base))]
    } else {
        Seq::empty()
    }) + (if spans.len() > 0 {
        seq![(Signal::Traces, traces_view(spans, base))]
    } else {
        Seq::empty()
    }) + (if snapshots.len() > 0 {
        seq![(Signal::Metrics, metrics_view(snapshots, base, enrichment, start, now))]
    } else {
        Seq::empty()
    })
}

/// Each payload's signal, and the JSON it holds.
pub open spec fn payload_views(p: Seq<(Signal, Json)>) -> Seq<(Signal, JsonView)> {
    p.map_values(|e: (Signal, Json)| (e.0, jv(e.1)))
}

/// Encodes a batch taken from `runtime`, and the metric readings taken at `now`, as the payloads to post. With no
/// pipeline installed there is nothing to post.
pub fn payloads(runtime: &Runtime, batch: Batch, snapshots: Vec<MetricSnapshot>, now: u64) -> (p: Vec<
    (Signal, Json),
>)
    requires
        runtime.wf(),
    ensures
        runtime.pipeline() is None ==> p@.len() == 0,
        runtime.pipeline() matches Some(i) ==> payload_views(p@) == payloads_view(
            batch.logs@,
            batch.spans@,
            snapshots@,
            i.resource@,
            i.enrichment.shared_fields(),
            i.start_unix_nano,
            now,
        ),
{
    let mut p: Vec<(Signal, Json)> = Vec::new();
    let installed = match runtime.installed() {
        Some(installed) => installed,
        None => {
            return p;
        },
    };
    let ghost log_records = batch.logs@;
    let ghost spans = batch.spans@;
    let Batch { logs: log_batch, spans: span_batch, .. } = batch;
    if log_batch.len() > 0 {
        let j = logs(log_batch, &installed.resource);
        p.push((Signal::Logs, j));
    }
    if span_batch.len() > 0 {
        let j = traces(span_batch, &installed.resource);
        p.push((Signal::Traces, j));
    }
    if snapshots.len() > 0 {
        let attributes = installed.enrichment.attributes();
        let j = metrics(&snapshots, &installed.resource, &attributes.fields, installed.start_unix_nano, now);
        p.push((Signal::Metrics, j));
    }
    assert(payload_views(p@) =~= payloads_view(
        log_records,
        spans,
        snapshots@,
        installed.resource@,
        installed.enrichment.shared_fields(),
        installed.start_unix_nano,
        now,
    ));
    p
}

/// Whether an HTTP status reports success: any 2xx.
pub open spec fn is_success(status: u16) -> bool {
    200 <= status <= 299
}

/// What a collector's answer to a post of `signal` means: nothing to report for a 2xx status, and otherwise the
/// rejection, with the status and the first [`MAX_REJECTION_BODY`] characters of the response body.
pub fn judge_response(signal: Signal, status: u16, body: &str) -> (e: Option<O11yError>)
    ensures
        e is None <==> is_success(status),
        !is_success(status) ==> (e matches Some(O11yError::ExportRejected { signal: s, status: st, body: b })
            && s == signal && st == status && b@ == (if body@.len() <= MAX_REJECTION_BODY {
            body@
        } else {
            body@.subrange(0, MAX_REJECTION_BODY as int)
        })),
{
    if 200 <= status && status <= 299 {
        None
    } else {
        Some(O11yError::ExportRejected { signal, status, body: rejection_body(body) })
    }
}

} // verus!
