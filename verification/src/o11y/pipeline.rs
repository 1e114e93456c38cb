//! The process-wide telemetry state and every decision made on it.
//!
//! The application keeps one [`Runtime`] behind a lock, with a condition variable beside it, and runs the export
//! thread. Each step of that thread — whether to wake, what to export, when to try again — and each public entry
//! point — starting, stopping, flushing, renewing the session — is decided here; the application performs the
//! waiting, the spawning and the sending.

use vstd::prelude::*;

use super::buffer::{Buffer, pushed};
use super::config::{Config, Header, headers_view};
use super::enrichment::{
    Attr, Attributes, Enrichment, hyphenated_uuid, located, machine_arch_key, machine_id_key, machine_os_key, string_fields_view,
};
use vstd::utf8::encode_utf8;
use super::geolocation::Geolocation;
use std::sync::Arc;
use super::environment::Environment;
use super::error::O11yError;
use super::gate::Gate;
use super::level::Level;
use super::record::{LogRecord, SpanRecord};
use super::trace::ids::{SpanId, TraceId, hex_encode, hex_text};
use super::trace::span_context::SpanContext;
use super::value::{Fields, Value};
use vstd::string::StringSliceAdditionalSpecFns;

use super::geolocation::{trim_trailing_slashes, without_trailing_slashes};
use super::signal::Signal;
use crate::text::{chars_of, extend_chars, string_of};

verus! {

/// The longest the worker waits between attempts after repeated failures, in milliseconds.
pub const MAX_BACKOFF_MS: u64 = 60000;

/// The wait after a failure: the flush interval the first time, then double the last wait, never more than
/// [`MAX_BACKOFF_MS`].
pub open spec fn backoff_after(current: u64, flush_interval: u64) -> u64 {
    if current == 0 {
        if flush_interval < MAX_BACKOFF_MS {
            flush_interval
        } else {
            MAX_BACKOFF_MS
        }
    } else if 2 * current < MAX_BACKOFF_MS {
        (2 * current) as u64
    } else {
        MAX_BACKOFF_MS
    }
}

/// The next wait, in milliseconds, after a failed export: an unreachable collector must not mean a full-timeout
/// attempt every interval forever.
pub fn next_backoff(current_ms: u64, flush_interval_ms: u64) -> (next: u64)
    ensures
        next == backoff_after(current_ms, flush_interval_ms),
{
    if current_ms == 0 {
        if flush_interval_ms < MAX_BACKOFF_MS {
            flush_interval_ms
        } else {
            MAX_BACKOFF_MS
        }
    } else if current_ms < MAX_BACKOFF_MS / 2 {
        current_ms * 2
    } else {
        MAX_BACKOFF_MS
    }
}

/// The backoff never exceeds its cap, and while below it each failure doubles the wait.
pub proof fn backoff_doubles_up_to_the_cap(current: u64, flush_interval: u64)
    ensures
        backoff_after(current, flush_interval) <= MAX_BACKOFF_MS,
        current > 0 && 2 * current <= MAX_BACKOFF_MS ==> backoff_after(current, flush_interval) == 2 * current,
        current == 0 && flush_interval <= MAX_BACKOFF_MS ==> backoff_after(current, flush_interval) == flush_interval,
{
}

/// Whether a buffer that has just reached `queued` entries should wake the worker: exactly when it reaches the
/// batch threshold. `==` rather than `>=`, so a buffer sitting above the threshold while an export is in flight
/// does not notify on every single push.
pub fn should_wake(queued: usize, max_batch_size: usize) -> (wake: bool)
    ensures
        wake == (queued == max_batch_size),
{
    queued == max_batch_size
}

/// The worker's instructions, and the counter callers wait on.
#[derive(Debug)]
pub struct Control {
    /// Whether the worker should drain and exit.
    pub shutdown: bool,
    /// Whether an export was asked for before the interval elapsed.
    pub flush_requested: bool,
    /// Incremented after every export cycle, so a flush can tell that its request was served.
    pub generation: u64,
}

/// What the worker does after looking at the control state.
#[derive(Debug, Clone, Copy, PartialEq, Eq, Structural)]
pub enum WaitDecision {
    /// Drain one last time and exit.
    ShutDown,
    /// Export now, before the interval has elapsed.
    ExportNow,
    /// Keep waiting until the interval elapses or something changes.
    KeepWaiting,
}

impl Control {
    /// No shutdown, no flush asked for, no cycle finished yet.
    pub open spec fn initial() -> Control {
        Control { shutdown: false, flush_requested: false, generation: 0 }
    }

    /// No shutdown, no flush asked for, no cycle finished yet.
    pub fn new() -> (c: Self)
        ensures
            c == Control::initial(),
    {
        Control { shutdown: false, flush_requested: false, generation: 0 }
    }

    /// Asks for an export before the interval elapses, returning the generation that will have served it — or
    /// `None` when the worker is shutting down, since waiting for a worker that has exited would hang.
    pub fn request_flush(&mut self) -> (target: Option<u64>)
        requires
            old(self).generation < u64::MAX,
        ensures
            old(self).shutdown ==> target is None && *final(self) == *old(self),
            !old(self).shutdown ==> target == Some((old(self).generation + 1) as u64) && *final(self) == (Control {
                flush_requested: true,
                ..*old(self)
            }),
    {
        if self.shutdown {
            return None;
        }
        self.flush_requested = true;
        Some(self.generation + 1)
    }

    /// Whether a flush waiting for `target` can stop waiting: its cycle has run, or the worker is shutting down.
    pub fn served(&self, target: u64) -> (done: bool)
        ensures
            done == is_served(*self, target),
    {
        self.generation >= target || self.shutdown
    }

    /// What the worker does next: a shutdown wins over a flush request, which wins over waiting.
    pub fn wait_decision(&self) -> (d: WaitDecision)
        ensures
            self.shutdown ==> d == WaitDecision::ShutDown,
            !self.shutdown && self.flush_requested ==> d == WaitDecision::ExportNow,
            !self.shutdown && !self.flush_requested ==> d == WaitDecision::KeepWaiting,
    {
        if self.shutdown {
            WaitDecision::ShutDown
        } else if self.flush_requested {
            WaitDecision::ExportNow
        } else {
            WaitDecision::KeepWaiting
        }
    }

    /// Records that an export cycle finished: the flush request is answered and the generation moves on.
    pub fn finish_cycle(&mut self)
        requires
            old(self).generation < u64::MAX,
        ensures
            *final(self) == after_cycle(*old(self)),
    {
        self.flush_requested = false;
        self.generation = self.generation + 1;
    }
}

/// The control state after the worker finishes a cycle: the flush request answered, the generation moved on.
pub open spec fn after_cycle(c: Control) -> Control {
    Control { shutdown: c.shutdown, flush_requested: false, generation: (c.generation + 1) as u64 }
}

/// Whether a flush waiting for `target` may stop waiting in state `c`.
pub open spec fn is_served(c: Control, target: u64) -> bool {
    c.generation >= target || c.shutdown
}

/// A flush is answered by exactly the next cycle the worker finishes: the generation it waits for has not been
/// reached when it asks, and is reached as soon as one more cycle completes.
pub proof fn a_flush_is_served_by_the_next_cycle(c: Control)
    requires
        !c.shutdown,
        c.generation < u64::MAX,
    ensures
        !is_served(c, (c.generation + 1) as u64),
        is_served(after_cycle(c), (c.generation + 1) as u64),
{
}

/// `hmac::Hmac<sha2::Sha256>` over `message`, keyed with `key`: the 32-byte HMAC-SHA256 tag.
pub uninterp spec fn hmac_sha256(key: Seq<u8>, message: Seq<u8>) -> Seq<u8>;

/// `Hmac::<Sha256>::new_from_slice(key)`, `Mac::update(message)`, `Mac::finalize().into_bytes()`: the HMAC-SHA256
/// tag of `message` under `key`. HMAC takes a key of any length (a long one is hashed first), so
/// `new_from_slice` never refuses one, and the tag is always there.
#[verifier::external_body]
fn hmac_sha256_tag(key: &[u8], message: &[u8]) -> (tag: Option<Vec<u8>>)
    ensures
        tag is Some,
        tag matches Some(t) ==> t@ == hmac_sha256(key@, message@) && t@.len() == 32,
{
    match <hmac::Hmac<sha2::Sha256> as hmac::digest::KeyInit>::new_from_slice(key) {
        Ok(mut mac) => {
            hmac::Mac::update(&mut mac, message);
            Some(hmac::Mac::finalize(mac).into_bytes().to_vec())
        },
        Err(_) => None,
    }
}

/// The machine identifier for `service` on a host whose raw id is `host_id`: the HMAC-SHA256 of the service name
/// keyed with the host id, in lowercase hex.
pub open spec fn scoped_machine_id(host_id: Seq<u8>, service: Seq<u8>) -> Seq<char> {
    hex_text(hmac_sha256(host_id, service))
}

/// A stable machine identifier, scoped to `service`, as lowercase hex.
///
/// The raw host id is **never** reported: it is identical across every program on the machine, so emitting it
/// would let a backend correlate this application's telemetry with that of any other. Keying an HMAC over the
/// service name with it gives an id that is stable for this machine and this service, and uncorrelatable with the
/// id any other service derives from the same host.
pub fn machine_id(host_id: &str, service: &str) -> (id: String)
    ensures
        id@ == scoped_machine_id(host_id.spec_bytes(), service.spec_bytes()),
{
    match hmac_sha256_tag(host_id.as_bytes(), service.as_bytes()) {
        Some(tag) => hex_encode(tag.as_slice()),
        None => String::new(),
    }
}

/// What `url::Url::parse` says of `endpoint`: `None` when it is a valid URL, otherwise the reason it is not.
pub uninterp spec fn url_rejection(endpoint: Seq<char>) -> Option<Seq<char>>;

/// The text of an optional string.
pub open spec fn opt_text(s: Option<String>) -> Option<Seq<char>> {
    match s {
        Some(v) => Some(v@),
        None => None,
    }
}

/// `reqwest::Url::parse(endpoint)`: `None` when the endpoint is a valid URL, else the parse error's message.
#[verifier::external_body]
pub(crate) fn url_parse_error(endpoint: &str) -> (reason: Option<String>)
    ensures
        opt_text(reason) == url_rejection(endpoint@),
{
    match reqwest::Url::parse(endpoint) {
        Ok(_) => None,
        Err(error) => Some(error.to_string()),
    }
}

/// Whether `reqwest::header::HeaderName::from_bytes` accepts the bytes of `name`.
pub uninterp spec fn header_name_valid(name: Seq<char>) -> bool;

/// Whether `reqwest::header::HeaderValue::from_str` accepts `value`.
pub uninterp spec fn header_value_valid(value: Seq<char>) -> bool;

/// `reqwest::header::HeaderName::from_bytes(name.as_bytes()).is_ok()`.
#[verifier::external_body]
fn header_name_ok(name: &str) -> (ok: bool)
    ensures
        ok == header_name_valid(name@),
{
    reqwest::header::HeaderName::from_bytes(name.as_bytes()).is_ok()
}

/// `reqwest::header::HeaderValue::from_str(value).is_ok()`.
#[verifier::external_body]
fn header_value_ok(value: &str) -> (ok: bool)
    ensures
        ok == header_value_valid(value@),
{
    reqwest::header::HeaderValue::from_str(value).is_ok()
}

/// The name of the first header that cannot be put on an HTTP request, if any.
pub open spec fn first_invalid_header(h: Seq<Header>) -> Option<Seq<char>>
    decreases h.len(),
{
    if h.len() == 0 {
        None
    } else {
        match first_invalid_header(h.drop_last()) {
            Some(name) => Some(name),
            None => if header_name_valid(h.last().0) && header_value_valid(h.last().1) {
                None
            } else {
                Some(h.last().0)
            },
        }
    }
}

/// Rejects headers that cannot be put on an HTTP request, naming the first one.
///
/// Failing here points straight at a misspelled authentication header, which would otherwise look like a
/// server-side rejection much later, on a thread the caller never sees.
pub fn validate_headers(headers: &Vec<(String, String)>) -> (r: Option<String>)
    ensures
        opt_text(r) == first_invalid_header(headers_view(headers@)),
{
    let ghost h = headers_view(headers@);
    let mut i: usize = 0;
    assert(h.subrange(0, 0) =~= Seq::<Header>::empty());
    while i < headers.len()
        invariant
            h == headers_view(headers@),
            i <= h.len(),
            first_invalid_header(h.subrange(0, i as int)) is None,
        decreases h.len() - i,
    {
        assert(h.subrange(0, i + 1).drop_last() =~= h.subrange(0, i as int));
        let valid = header_name_ok(headers[i].0.as_str()) && header_value_ok(headers[i].1.as_str());
        if !valid {
            proof {
                lemma_first_invalid_prefix(h, i as int);
            }
            return Some(headers[i].0.clone());
        }
        i += 1;
    }
    assert(h.subrange(0, h.len() as int) =~= h);
    None
}

/// When the first `i` headers are all valid and header `i` is not, header `i` is the first invalid one.
proof fn lemma_first_invalid_prefix(h: Seq<Header>, i: int)
    requires
        0 <= i < h.len(),
        first_invalid_header(h.subrange(0, i)) is None,
        !(header_name_valid(h[i].0) && header_value_valid(h[i].1)),
    ensures
        first_invalid_header(h) == Some(h[i].0),
    decreases h.len() - i,
{
    if i == h.len() - 1 {
        assert(h.drop_last() =~= h.subrange(0, i));
    } else {
        assert(h.drop_last().subrange(0, i) =~= h.subrange(0, i));
        lemma_first_invalid_prefix(h.drop_last(), i);
    }
}

/// The resource attributes the module sets itself, as text: the service's name, its version when it has one, the
/// deployment environment, and the SDK's own name and language.
pub open spec fn built_in_resource(service_name: Seq<char>, service_version: Seq<char>, environment: Seq<char>) -> Seq<
    Attr,
> {
    seq![("service.name"@, service_name)] + (if service_version.len() > 0 {
        seq![("service.version"@, service_version)]
    } else {
        Seq::empty()
    }) + seq![
        ("deployment.environment.name"@, environment),
        ("telemetry.sdk.name"@, "rust-sak"@),
        ("telemetry.sdk.language"@, "rust"@),
    ]
}

/// The resource attributes taken from the configuration, as opposed to from the machine: the ones
/// [`built_in_resource`] lists, each a string, then the caller's own.
pub fn resource_attributes(
    service_name: &str,
    service_version: &str,
    environment: &Environment,
    extra: Fields,
) -> (attributes: Fields)
    ensures
        ({
            let built_in = built_in_resource(service_name@, service_version@, environment.text());
            &&& attributes@.len() == built_in.len() + extra@.len()
            &&& string_fields_view(attributes@.subrange(0, built_in.len() as int)) == built_in
            &&& forall|i: int| 0 <= i < built_in.len() ==> (#[trigger] attributes@[i]).1 is String
            &&& attributes@.subrange(built_in.len() as int, attributes@.len() as int) == extra@
        }),
{
    let mut attributes: Fields = Vec::new();
    attributes.push(("service.name".to_owned(), Value::String(service_name.to_owned())));
    if !service_version.is_empty() {
        attributes.push(("service.version".to_owned(), Value::String(service_version.to_owned())));
    }
    attributes.push(("deployment.environment.name".to_owned(), Value::String(environment.to_string())));
    attributes.push(("telemetry.sdk.name".to_owned(), Value::String("rust-sak".to_owned())));
    attributes.push(("telemetry.sdk.language".to_owned(), Value::String("rust".to_owned())));
    proof {
        reveal_strlit("service.name");
        reveal_strlit("service.version");
        reveal_strlit("deployment.environment.name");
        reveal_strlit("telemetry.sdk.name");
        reveal_strlit("telemetry.sdk.language");
        reveal_strlit("rust-sak");
        reveal_strlit("rust");
    }
    let ghost head = attributes@;
    let ghost built_in = built_in_resource(service_name@, service_version@, environment.text());
    assert(string_fields_view(head) =~= built_in);
    let mut extra = extra;
    let ghost all_extra = extra@;
    attributes.append(&mut extra);
    assert(attributes@.subrange(0, built_in.len() as int) =~= head);
    assert(attributes@.subrange(attributes@.len() - all_extra.len(), attributes@.len() as int) =~= all_extra);
    attributes
}

/// Where a payload for `signal` is posted: the endpoint without trailing slashes, then the signal's path.
pub open spec fn export_address(endpoint: Seq<char>, signal: Signal) -> Seq<char> {
    without_trailing_slashes(endpoint) + signal_path(signal)
}

/// The OTLP path of `signal`.
pub open spec fn signal_path(signal: Signal) -> Seq<char> {
    match signal {
        Signal::Logs => "/v1/logs"@,
        Signal::Metrics => "/v1/metrics"@,
        Signal::Traces => "/v1/traces"@,
    }
}

/// The URL a payload for `signal` is posted to.
pub fn export_url(endpoint: &str, signal: Signal) -> (url: String)
    ensures
        url@ == export_address(endpoint@, signal),
{
    let chars = chars_of(endpoint);
    let mut out = trim_trailing_slashes(chars.as_slice());
    let path = chars_of(signal.path());
    extend_chars(&mut out, path.as_slice());
    string_of(out.as_slice())
}

/// The most characters of a collector's complaint that are kept: a collector that is unhappy sometimes says so at
/// length, and the message is destined for someone else's logger.
pub const MAX_REJECTION_BODY: usize = 512;

/// The first `MAX_REJECTION_BODY` characters of a rejected export's response body.
pub fn rejection_body(body: &str) -> (kept: String)
    ensures
        kept@ == (if body@.len() <= MAX_REJECTION_BODY {
            body@
        } else {
            body@.subrange(0, MAX_REJECTION_BODY as int)
        }),
{
    let chars = chars_of(body);
    let end = if chars.len() <= MAX_REJECTION_BODY {
        chars.len()
    } else {
        MAX_REJECTION_BODY
    };
    let kept = crate::text::copy_range(chars.as_slice(), 0, end);
    assert(body@.len() <= MAX_REJECTION_BODY ==> body@.subrange(0, end as int) =~= body@);
    string_of(kept.as_slice())
}

/// How starting telemetry turned out, when it did not fail.
#[derive(Debug, Clone, Copy, PartialEq, Eq, Structural)]
pub enum Started {
    /// Collection is off: no worker, no lookup, and the gates stay shut.
    Disabled,
    /// Collection is on: the application starts the export thread, and the location lookup when `geolocation`
    /// asks for one.
    Running {
        /// Whether to start the location lookup.
        geolocation: bool,
    },
}

/// The state of a started pipeline: its configuration, its buffers, and what the worker is told.
#[derive(Debug)]
pub struct Installed {
    /// The configuration it was started with, its resource attributes moved into `resource`.
    pub config: Config,
    /// Buffered log records awaiting export.
    pub logs: Buffer<LogRecord>,
    /// Buffered spans awaiting export.
    pub spans: Buffer<SpanRecord>,
    /// The machine and session attributes.
    pub enrichment: Enrichment,
    /// The configuration-derived resource attributes.
    pub resource: Fields,
    /// When this process started recording, reported as every metric's start time.
    pub start_unix_nano: u64,
    /// What the worker should do next.
    pub control: Control,
    /// Whether an export thread is running that a shutdown has to join.
    pub worker_running: bool,
}

impl Installed {
    /// Both buffers are well formed, and so is the enrichment.
    pub open spec fn wf(self) -> bool {
        self.logs.wf() && self.spans.wf() && self.enrichment.wf()
    }
}

/// What a batch taken for export holds.
#[derive(Debug)]
pub struct Batch {
    /// The log records, oldest first.
    pub logs: Vec<LogRecord>,
    /// How many log records were discarded since the last export.
    pub logs_dropped: u64,
    /// The finished spans, oldest first.
    pub spans: Vec<SpanRecord>,
    /// How many spans were discarded since the last export.
    pub spans_dropped: u64,
}

/// The trace and span id bytes of the span a context names, if any.
pub open spec fn context_ids(context: Option<SpanContext>) -> Option<(Seq<u8>, Seq<u8>)> {
    match context {
        None => None,
        Some(c) => Some((c.trace_bytes(), c.span_bytes())),
    }
}

/// Whether `r` is the log record emitted at `now` with `level`, `body` and `fields`, inside the span whose id
/// bytes `ids` holds when there is one.
pub open spec fn logged(
    r: LogRecord,
    level: Level,
    body: String,
    fields: Fields,
    now: u64,
    ids: Option<(Seq<u8>, Seq<u8>)>,
) -> bool {
    &&& r.time_unix_nano == now
    &&& r.level == level
    &&& r.body == body
    &&& r.fields == fields
    &&& match ids {
        None => r.trace_id is None && r.span_id is None,
        Some((trace, span)) => (r.trace_id matches Some(t) && t.0@ == trace) && (r.span_id matches Some(s) && s.0@
            == span),
    }
}

/// The process's telemetry: whether it was ever started, the gates, and the pipeline while one is installed.
#[derive(Debug)]
pub struct Runtime {
    /// Whether a start has been claimed, including one that disabled telemetry.
    initialized: bool,
    /// The level and tracing gates.
    gate: Gate,
    /// The installed pipeline, or nothing if telemetry was never started with collection on.
    installed: Option<Installed>,
}

impl Runtime {
    /// Whether a start has been claimed.
    pub closed spec fn started(self) -> bool {
        self.initialized
    }

    /// The gates.
    pub closed spec fn gates(self) -> Gate {
        self.gate
    }

    /// The installed pipeline, if any.
    pub closed spec fn pipeline(self) -> Option<Installed> {
        self.installed
    }

    /// Whether telemetry is installed and has not been shut down.
    pub open spec fn running(self) -> bool {
        self.pipeline() matches Some(p) && !p.control.shutdown
    }

    /// Every installed pipeline has well-formed buffers, and the gates are open only while a started pipeline is
    /// running.
    pub open spec fn wf(self) -> bool {
        &&& self.pipeline() matches Some(p) ==> p.wf()
        &&& gates_open(self.gates()) ==> self.started() && self.running()
    }

    /// Nothing started: the gates shut, so everything recorded is discarded at a single comparison.
    pub fn new() -> (r: Self)
        ensures
            r.wf(),
            !r.started(),
            r.gates() == (Gate { threshold: super::gate::CLOSED, tracing: false }),
            r.pipeline() is None,
    {
        Runtime { initialized: false, gate: Gate::new(), installed: None }
    }

    /// The installed pipeline, for reading.
    pub fn installed(&self) -> (p: Option<&Installed>)
        ensures
            p is None <==> self.pipeline() is None,
            p matches Some(i) ==> self.pipeline() == Some(*i),
    {
        match &self.installed {
            Some(installed) => Some(installed),
            None => None,
        }
    }

    /// The gates, for the call sites that consult them before evaluating anything a record would carry.
    pub fn gate(&self) -> (g: Gate)
        ensures
            g == self.gates(),
    {
        self.gate
    }

    /// Starts telemetry with `config`, at `now`.
    ///
    /// The endpoint must parse as a URL, and every header must be sendable; then only the first start in a process
    /// counts, and later ones are refused, leaving the first configuration in effect. With collection off that is
    /// all: no pipeline, and the gates stay shut. With it on, the enrichment is gathered — the machine id scoped to
    /// the service from `host_id` when the host's id could be read, and `os` and `arch` — the pipeline installed,
    /// and the gates opened last, so a producer that passes a gate finds a pipeline behind it.
    pub fn init(
        &mut self,
        config: Config,
        host_id: Option<&str>,
        os: &str,
        arch: &str,
        now: u64,
    ) -> (r: Result<Started, O11yError>)
        requires
            old(self).wf(),
        ensures
            final(self).wf(),
            url_rejection(config.endpoint@) is Some ==> (r matches Err(O11yError::InvalidEndpoint { endpoint, reason })
                && endpoint@ == config.endpoint@ && Some(reason@) == url_rejection(config.endpoint@)),
            url_rejection(config.endpoint@) is None && first_invalid_header(headers_view(config.headers@)) is Some ==> (
            r matches Err(O11yError::InvalidHeader { name }) && Some(name@) == first_invalid_header(
                headers_view(config.headers@),
            )),
            url_rejection(config.endpoint@) is None && first_invalid_header(headers_view(config.headers@)) is None
                && old(self).started() ==> r matches Err(O11yError::AlreadyInitialized),
            r is Err ==> final(self).gates() == old(self).gates() && final(self).pipeline() == old(self).pipeline()
                && final(self).started() == old(self).started(),
            r is Ok ==> {
                &&& url_rejection(config.endpoint@) is None
                &&& first_invalid_header(headers_view(config.headers@)) is None
                &&& !old(self).started()
                &&& final(self).started()
            },
            url_rejection(config.endpoint@) is None && first_invalid_header(headers_view(config.headers@)) is None
                && !old(self).started() && !config.enabled ==> r == Ok::<Started, O11yError>(Started::Disabled)
                && final(self).gates() == old(self).gates() && final(self).pipeline() == old(self).pipeline(),
            url_rejection(config.endpoint@) is None && first_invalid_header(headers_view(config.headers@)) is None
                && !old(self).started() && config.enabled ==> {
                &&& r == Ok::<Started, O11yError>(Started::Running { geolocation: config.geolocation })
                &&& final(self).gates() == (Gate {
                    threshold: super::level::severity(config.min_level),
                    tracing: true,
                })
                &&& final(self).pipeline() matches Some(p) && p.control == Control::initial() && p.worker_running
                    && p.start_unix_nano == now && p.logs.entries().len() == 0 && p.spans.entries().len() == 0
                    && p.config == (Config { resource: p.config.resource, ..config }) && p.config.resource@.len() == 0
                    && p.logs.limit() == buffer_limit(config.max_buffered) && p.spans.limit() == buffer_limit(
                    config.max_buffered,
                ) && p.logs.drops() == 0 && p.spans.drops() == 0
                    && p.enrichment@.generation == 0 && p.enrichment@.base == (match host_id {
                    Some(h) => seq![
                        (machine_id_key(), scoped_machine_id(h.spec_bytes(), encode_utf8(config.service_name@))),
                    ],
                    None => Seq::<Attr>::empty(),
                }) + seq![(machine_os_key(), os@), (machine_arch_key(), arch@)] && ({
                    let built_in = built_in_resource(
                        config.service_name@,
                        config.service_version@,
                        config.environment.text(),
                    );
                    &&& p.resource@.len() == built_in.len() + config.resource@.len()
                    &&& string_fields_view(p.resource@.subrange(0, built_in.len() as int)) == built_in
                    &&& p.resource@.subrange(built_in.len() as int, p.resource@.len() as int) == config.resource@
                })
            },
    {
        match url_parse_error(config.endpoint.as_str()) {
            Some(reason) => {
                return Err(O11yError::InvalidEndpoint { endpoint: config.endpoint, reason });
            },
            None => {},
        }
        match validate_headers(&config.headers) {
            Some(name) => {
                return Err(O11yError::InvalidHeader { name });
            },
            None => {},
        }
        if self.initialized {
            return Err(O11yError::AlreadyInitialized);
        }
        self.initialized = true;
        if !config.enabled {
            return Ok(Started::Disabled);
        }
        let id = match host_id {
            Some(host) => Some(machine_id(host, config.service_name.as_str())),
            None => None,
        };
        let enrichment = match &id {
            Some(s) => Enrichment::new(Some(s.as_str()), os, arch),
            None => Enrichment::new(None, os, arch),
        };
        let geolocation = config.geolocation;
        let min_level = config.min_level;
        let mut config = config;
        let mut extra: Fields = Vec::new();
        std::mem::swap(&mut extra, &mut config.resource);
        let resource = resource_attributes(
            config.service_name.as_str(),
            config.service_version.as_str(),
            &config.environment,
            extra,
        );
        let logs = Buffer::new(config.max_buffered);
        let spans = Buffer::new(config.max_buffered);
        self.installed = Some(
            Installed {
                config,
                logs,
                spans,
                enrichment,
                resource,
                start_unix_nano: now,
                control: Control::new(),
                worker_running: true,
            },
        );
        self.gate.open(min_level);
        Ok(Started::Running { geolocation })
    }

    /// Stops telemetry: shuts the gates first, so nothing new is queued behind the drain, then tells the worker to
    /// drain and exit. Returns whether there is a worker to join — `true` only the first time, so stopping is
    /// idempotent and safe to call without a start.
    pub fn shutdown(&mut self) -> (join: bool)
        requires
            old(self).wf(),
        ensures
            final(self).wf(),
            final(self).gates() == (Gate { threshold: super::gate::CLOSED, tracing: false }),
            final(self).started() == old(self).started(),
            !final(self).running(),
            join == (old(self).pipeline() matches Some(p) && p.worker_running),
            old(self).pipeline() is None ==> final(self).pipeline() is None,
            old(self).pipeline() matches Some(p) ==> final(self).pipeline() == Some(shut_down(p)),
    {
        self.gate.close();
        match self.installed.take() {
            None => false,
            Some(mut installed) => {
                installed.control.shutdown = true;
                let join = installed.worker_running;
                installed.worker_running = false;
                self.installed = Some(installed);
                join
            },
        }
    }

    /// Asks the worker for an export now, returning the generation to wait for — or `None` when there is nothing
    /// to wait for: telemetry is not installed, or it is shutting down.
    pub fn flush(&mut self) -> (target: Option<u64>)
        requires
            old(self).wf(),
        ensures
            final(self).wf(),
            final(self).gates() == old(self).gates(),
            final(self).started() == old(self).started(),
            !old(self).running() ==> target is None && final(self).pipeline() == old(self).pipeline(),
            old(self).running() && old(self).pipeline()->0.control.generation == u64::MAX ==> target is None
                && final(self).pipeline() == old(self).pipeline(),
            old(self).running() && old(self).pipeline()->0.control.generation < u64::MAX ==> ({
                let p = old(self).pipeline()->0;
                &&& target == Some((p.control.generation + 1) as u64)
                &&& final(self).pipeline() == Some(flush_asked(p))
            }),
    {
        match self.installed.take() {
            None => None,
            Some(mut installed) => {
                if installed.control.generation == u64::MAX {
                    self.installed = Some(installed);
                    return None;
                }
                let target = installed.control.request_flush();
                self.installed = Some(installed);
                target
            },
        }
    }

    /// Whether a flush waiting for `target` may stop waiting.
    pub fn flushed(&self, target: u64) -> (done: bool)
        ensures
            done == (self.pipeline() matches Some(p) ==> is_served(p.control, target)),
    {
        match &self.installed {
            None => true,
            Some(installed) => installed.control.served(target),
        }
    }

    /// Whether telemetry is installed and exporting: `false` before it starts, after it stops, and when it was
    /// started with collection off.
    pub fn is_enabled(&self) -> (r: bool)
        ensures
            r == self.running(),
    {
        match &self.installed {
            None => false,
            Some(installed) => !installed.control.shutdown,
        }
    }

    /// The session id attached to records right now, or `None` if telemetry is not running.
    pub fn session_id(&self) -> (r: Option<String>)
        requires
            self.wf(),
        ensures
            !self.running() ==> r is None,
            self.running() ==> (r matches Some(s) && s@ == self.pipeline()->0.enrichment@.session && hyphenated_uuid(
                s@,
            )),
    {
        match &self.installed {
            None => None,
            Some(installed) => if installed.control.shutdown {
                None
            } else {
                proof {
                    installed.enrichment.lemma_session_is_a_uuid();
                }
                Some(installed.enrichment.session_id())
            },
        }
    }

    /// Assigns a fresh session id to everything recorded from now on. Records already buffered keep the session
    /// they were recorded under, since they carry the generation they were emitted in.
    pub fn renew_session(&mut self)
        requires
            old(self).wf(),
        ensures
            final(self).wf(),
            final(self).gates() == old(self).gates(),
            final(self).started() == old(self).started(),
            final(self).running() == old(self).running(),
            old(self).pipeline() is None ==> final(self).pipeline() is None,
            old(self).pipeline() matches Some(p) ==> (final(self).pipeline() matches Some(q) && q == (Installed {
                enrichment: q.enrichment,
                ..p
            }) && q.enrichment@.base == p.enrichment@.base && q.enrichment@.generation
                == p.enrichment@.generation.wrapping_add(1) && hyphenated_uuid(q.enrichment@.session)),
    {
        match self.installed.take() {
            None => {},
            Some(mut installed) => {
                installed.enrichment.renew_session();
                self.installed = Some(installed);
            },
        }
    }

    /// Merges a resolved geolocation into the enrichment of an installed pipeline, which moves it to a new
    /// generation; records already buffered keep the enrichment they were emitted with.
    pub fn set_location(&mut self, geo: &Geolocation)
        requires
            old(self).wf(),
        ensures
            final(self).wf(),
            final(self).gates() == old(self).gates(),
            final(self).started() == old(self).started(),
            old(self).pipeline() is None ==> final(self).pipeline() is None,
            old(self).pipeline() matches Some(p) ==> (final(self).pipeline() matches Some(q) && q.enrichment@.base
                == located(p.enrichment@.base, *geo) && q.enrichment@.session == p.enrichment@.session
                && q.enrichment@.generation == p.enrichment@.generation.wrapping_add(1) && q.logs == p.logs
                && q.spans == p.spans && q.control == p.control),
    {
        match self.installed.take() {
            None => {},
            Some(mut installed) => {
                installed.enrichment.set_location(geo);
                self.installed = Some(installed);
            },
        }
    }

    /// The enrichment rendering current right now, shared, for a span opened now; an empty rendering when nothing
    /// is installed.
    pub fn attributes(&self) -> (a: Arc<Attributes>)
        requires
            self.wf(),
        ensures
            self.pipeline() matches Some(p) ==> a.generation == p.enrichment@.generation && a.fields@
                == p.enrichment.shared_fields(),
            self.pipeline() is None ==> a.generation == 0 && a.fields@.len() == 0,
    {
        match &self.installed {
            Some(installed) => installed.enrichment.attributes(),
            None => Arc::new(Attributes { generation: 0, fields: Vec::new() }),
        }
    }

    /// Buffers a log record emitted at `now` inside the span `context`, if any, and returns whether the worker
    /// should be woken. Nothing is recorded when no pipeline is installed, or when the drop tally is already at its
    /// maximum.
    pub fn record_log(
        &mut self,
        level: Level,
        body: String,
        fields: Fields,
        now: u64,
        context: Option<SpanContext>,
    ) -> (wake: bool)
        requires
            old(self).wf(),
        ensures
            final(self).wf(),
            final(self).gates() == old(self).gates(),
            final(self).started() == old(self).started(),
            old(self).pipeline() is None ==> !wake && final(self).pipeline() is None,
            old(self).pipeline() matches Some(p) ==> (p.logs.drops() == u64::MAX ==> !wake && final(self).pipeline()
                == old(self).pipeline()),
            old(self).pipeline() matches Some(p) ==> (p.logs.drops() < u64::MAX ==> (final(self).pipeline() matches Some(
                q,
            ) && log_queued(p, q) && logged(q.logs.entries().last(), level, body, fields, now, context_ids(context))
                && q.logs.entries().last().enrichment.generation == p.enrichment@.generation
                && q.logs.entries().last().enrichment.fields@ == p.enrichment.shared_fields() && wake == (
            q.logs.entries().len() == p.config.max_batch_size))),
    {
        match self.installed.take() {
            None => false,
            Some(mut installed) => {
                if installed.logs.dropped() == u64::MAX {
                    self.installed = Some(installed);
                    return false;
                }
                let (trace_id, span_id) = match context {
                    Some(c) => (Some(TraceId(c.trace_id())), Some(SpanId(c.span_id()))),
                    None => (None, None),
                };
                let record = LogRecord {
                    time_unix_nano: now,
                    level,
                    body,
                    fields,
                    enrichment: installed.enrichment.attributes(),
                    trace_id,
                    span_id,
                };
                let queued = installed.logs.push(record);
                let wake = should_wake(queued, installed.config.max_batch_size);
                self.installed = Some(installed);
                wake
            },
        }
    }

    /// Buffers a finished span, and returns whether the worker should be woken.
    pub fn record_span(&mut self, record: SpanRecord) -> (wake: bool)
        requires
            old(self).wf(),
        ensures
            final(self).wf(),
            final(self).gates() == old(self).gates(),
            final(self).started() == old(self).started(),
            old(self).pipeline() is None ==> !wake && final(self).pipeline() is None,
            old(self).pipeline() matches Some(p) ==> (p.spans.drops() == u64::MAX ==> !wake && final(self).pipeline()
                == old(self).pipeline()),
            old(self).pipeline() matches Some(p) ==> (p.spans.drops() < u64::MAX ==> (final(self).pipeline() matches Some(
                q,
            ) && span_queued(p, q, record) && wake == (q.spans.entries().len() == p.config.max_batch_size))),
    {
        match self.installed.take() {
            None => false,
            Some(mut installed) => {
                if installed.spans.dropped() == u64::MAX {
                    self.installed = Some(installed);
                    return false;
                }
                let queued = installed.spans.push(record);
                let wake = should_wake(queued, installed.config.max_batch_size);
                self.installed = Some(installed);
                wake
            },
        }
    }

    /// What the worker does next; a runtime with nothing installed has nothing to wait for.
    pub fn wait_decision(&self) -> (d: WaitDecision)
        ensures
            self.pipeline() is None ==> d == WaitDecision::ShutDown,
            self.pipeline() matches Some(p) ==> (p.control.shutdown ==> d == WaitDecision::ShutDown) && (
            !p.control.shutdown && p.control.flush_requested ==> d == WaitDecision::ExportNow) && (!p.control.shutdown
                && !p.control.flush_requested ==> d == WaitDecision::KeepWaiting),
    {
        match &self.installed {
            None => WaitDecision::ShutDown,
            Some(installed) => installed.control.wait_decision(),
        }
    }

    /// Takes everything buffered for export, each buffer leaving in one move with its drop tally, which resets.
    pub fn take_batch(&mut self) -> (b: Option<Batch>)
        requires
            old(self).wf(),
        ensures
            final(self).wf(),
            final(self).gates() == old(self).gates(),
            old(self).pipeline() is None ==> b is None && final(self).pipeline() is None,
            old(self).pipeline() matches Some(p) ==> {
                &&& b matches Some(batch) && batch.logs@ == p.logs.entries() && batch.logs_dropped == p.logs.drops()
                    && batch.spans@ == p.spans.entries() && batch.spans_dropped == p.spans.drops()
                &&& final(self).pipeline() matches Some(q) && q.logs.entries().len() == 0 && q.spans.entries().len()
                    == 0 && q.logs.drops() == 0 && q.spans.drops() == 0 && q.control == p.control
            },
    {
        match self.installed.take() {
            None => None,
            Some(mut installed) => {
                let (logs, logs_dropped) = installed.logs.take();
                let (spans, spans_dropped) = installed.spans.take();
                self.installed = Some(installed);
                Some(Batch { logs, logs_dropped, spans, spans_dropped })
            },
        }
    }

    /// Records that an export cycle finished, answering any flush request.
    pub fn finish_cycle(&mut self)
        requires
            old(self).wf(),
        ensures
            final(self).wf(),
            final(self).gates() == old(self).gates(),
            old(self).pipeline() is None ==> final(self).pipeline() is None,
            old(self).pipeline() matches Some(p) ==> (final(self).pipeline() matches Some(q) && (
            p.control.generation < u64::MAX ==> q.control == after_cycle(p.control))),
    {
        match self.installed.take() {
            None => {},
            Some(mut installed) => {
                if installed.control.generation < u64::MAX {
                    installed.control.finish_cycle();
                }
                self.installed = Some(installed);
            },
        }
    }

    /// Shuts the gates without a drain, for an export thread that stopped for any reason: producers must not fill
    /// buffers nobody will drain.
    pub fn silence(&mut self)
        ensures
            old(self).wf() ==> final(self).wf(),
            final(self).gates() == (Gate { threshold: super::gate::CLOSED, tracing: false }),
            final(self).pipeline() == old(self).pipeline(),
            final(self).started() == old(self).started(),
    {
        self.gate.close();
    }
}

/// How many records each buffer of a pipeline started with `max_buffered` holds: that many, and at least one.
pub open spec fn buffer_limit(max_buffered: usize) -> nat {
    if max_buffered == 0 {
        1
    } else {
        max_buffered as nat
    }
}

/// Whether either gate lets anything through.
pub open spec fn gates_open(g: Gate) -> bool {
    g.tracing || g.threshold != super::gate::CLOSED
}

/// Over a whole run, the gates let a record or a span through only while telemetry is running: after a start with
/// collection on, and before a stop. Before a start, after a start with collection off, and after a stop, nothing
/// passes either gate.
pub proof fn nothing_passes_the_gates_unless_running(r: Runtime, level: Level)
    requires
        r.wf(),
    ensures
        r.gates().admits(level) ==> r.started() && r.running(),
        r.gates().tracing ==> r.started() && r.running(),
        !r.running() ==> !r.gates().admits(level) && !r.gates().tracing,
{
    assert(super::level::severity(level) < super::gate::CLOSED);
}

/// A pipeline whose worker has been asked for an export now.
pub open spec fn flush_asked(p: Installed) -> Installed {
    Installed { control: Control { flush_requested: true, ..p.control }, ..p }
}

/// A flush asked of a running pipeline leaves its worker told to export now, and the generation it hands back to
/// wait for is not reached yet, but is reached by the very next cycle the worker finishes.
pub proof fn a_runtime_flush_is_served_by_the_next_cycle(p: Installed)
    requires
        !p.control.shutdown,
        p.control.generation < u64::MAX,
    ensures
        flush_asked(p).control.flush_requested && !flush_asked(p).control.shutdown,
        !is_served(flush_asked(p).control, (p.control.generation + 1) as u64),
        is_served(after_cycle(flush_asked(p).control), (p.control.generation + 1) as u64),
{
}

/// A pipeline after one log record was queued: only the log buffer changed, by one push of its newest entry.
pub open spec fn log_queued(p: Installed, q: Installed) -> bool {
    &&& q == (Installed { logs: q.logs, ..p })
    &&& q.logs.limit() == p.logs.limit()
    &&& (q.logs.entries(), q.logs.drops()) == pushed(
        p.logs.entries(),
        p.logs.drops(),
        p.logs.limit(),
        q.logs.entries().last(),
    )
}

/// A pipeline after the finished span `record` was queued: only the span buffer changed, by one push of `record`.
pub open spec fn span_queued(p: Installed, q: Installed, record: SpanRecord) -> bool {
    &&& q == (Installed { spans: q.spans, ..p })
    &&& q.spans.limit() == p.spans.limit()
    &&& (q.spans.entries(), q.spans.drops()) == pushed(p.spans.entries(), p.spans.drops(), p.spans.limit(), record)
}

/// A pipeline told to stop: the worker is to drain and exit, and there is no longer a worker to join.
pub open spec fn shut_down(p: Installed) -> Installed {
    Installed { control: Control { shutdown: true, ..p.control }, worker_running: false, ..p }
}

/// Stopping is idempotent: stopping a stopped pipeline changes nothing, and finds no worker left to join.
pub proof fn stopping_twice_is_stopping_once(p: Installed)
    ensures
        shut_down(shut_down(p)) == shut_down(p),
        !shut_down(p).worker_running,
        shut_down(p).control.shutdown,
{
}

} // verus!
