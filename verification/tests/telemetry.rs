use std::sync::Arc;

use rust_sak::o11y::bridge::{Ancestor, Collect, error_value, plan_event, set_field, unsigned_value};
use rust_sak::o11y::export::{drop_reports, judge_response, payloads};
use rust_sak::o11y::metric::counter;
use rust_sak::o11y::metric::registry::MetricData;
use rust_sak::o11y::metric::tags::MAX_SERIES;
use rust_sak::o11y::buffer::Buffer;
use rust_sak::o11y::builder::{TelemetryBuilder, logs_endpoint};
use rust_sak::o11y::config::Config;
use rust_sak::o11y::enrichment::{Attributes, Enrichment};
use rust_sak::o11y::error::O11yError;
use rust_sak::o11y::gate::{Gate, enabled, tracing_enabled};
use rust_sak::o11y::geolocation::{Geolocation, lookup_url};
use rust_sak::o11y::json::Json;
use rust_sak::o11y::level::Level;
use rust_sak::o11y::log;
use rust_sak::o11y::otlp::{base64, logs, metrics, traces};
use rust_sak::o11y::pipeline::{
    Control, Runtime, Started, WaitDecision, export_url, next_backoff, rejection_body, resource_attributes,
    should_wake,
};
use rust_sak::o11y::record::{LogRecord, SpanRecord, Status};
use rust_sak::o11y::signal::Signal;
use rust_sak::o11y::trace::ids::{IdGenerator, SpanId, TraceId};
use rust_sak::o11y::trace::span::Span;
use rust_sak::o11y::trace::stack::SpanStack;
use rust_sak::o11y::trace::{OwnedSpan, Parent, SpanContext, current, start};
use rust_sak::o11y::value::{Fields, Value};
use rust_sak::o11y::{Environment, flush, is_enabled, renew_session, session_id, shutdown};

// --- helpers ---

/// The member `key` of a JSON object.
fn member<'a>(json: &'a Json, key: &str) -> &'a Json {
    match json {
        Json::Object(members) => &members.iter().find(|(name, _)| name == key).unwrap_or_else(|| panic!("no {key}")).1,
        other => panic!("{other:?} is not an object"),
    }
}

/// Whether a JSON object has the member `key`.
fn has(json: &Json, key: &str) -> bool {
    match json {
        Json::Object(members) => members.iter().any(|(name, _)| name == key),
        _ => false,
    }
}

/// Element `index` of a JSON array.
fn at(json: &Json, index: usize) -> &Json {
    match json {
        Json::Array(items) => &items[index],
        other => panic!("{other:?} is not an array"),
    }
}

/// The length of a JSON array.
fn len(json: &Json) -> usize {
    match json {
        Json::Array(items) => items.len(),
        other => panic!("{other:?} is not an array"),
    }
}

/// The text of a JSON string.
fn text(json: &Json) -> &str {
    match json {
        Json::String(s) => s.as_str(),
        other => panic!("{other:?} is not a string"),
    }
}

/// An enrichment rendering of the given generation holding one session id.
fn attributes(generation: u64, session: &str) -> Arc<Attributes> {
    Arc::new(Attributes {
        generation,
        fields: vec![("session.id".to_string(), Value::String(session.to_string()))],
    })
}

/// A log record with the given body, one field, and no enclosing span.
fn log_record(body: &str) -> LogRecord {
    LogRecord {
        time_unix_nano: 1_758_412_800_000_000_000,
        level: Level::Info,
        body: body.to_string(),
        fields: vec![("order_id".to_string(), Value::String("ord_8812".to_string()))],
        enrichment: attributes(0, "one"),
        trace_id: None,
        span_id: None,
    }
}

/// A finished span with fixed ids.
fn span_record(name: &str) -> SpanRecord {
    SpanRecord {
        trace_id: TraceId([1; 16]),
        span_id: SpanId([2; 8]),
        parent_span_id: None,
        name: name.to_string(),
        start_unix_nano: 5,
        end_unix_nano: 9,
        attributes: Vec::new(),
        events: Vec::new(),
        links: Vec::new(),
        status: Status::Unset,
        enrichment: attributes(0, "one"),
    }
}

// --- the bounded buffer ---

#[test]
fn a_full_buffer_discards_the_oldest_entry() {
    let mut buffer = Buffer::new(3);

    for index in 0..5 {
        buffer.push(index);
    }

    let (kept, dropped) = buffer.take();

    assert_eq!(kept, vec![2, 3, 4], "the most recent entries are the ones that survive");
    assert_eq!(dropped, 2);
}

#[test]
fn a_buffer_reports_its_drops_once_rather_than_per_drop() {
    let mut buffer = Buffer::new(1);

    for index in 0..4 {
        buffer.push(index);
    }

    assert_eq!(buffer.take().1, 3);
    assert_eq!(buffer.take().1, 0, "the tally resets once it has been reported");
}

#[test]
fn a_zero_capacity_buffer_still_holds_one_entry() {
    let mut buffer = Buffer::new(0);
    buffer.push(7);

    assert_eq!(buffer.take().0, vec![7]);
}

#[test]
fn push_reports_the_queue_length_so_the_worker_can_be_woken() {
    let mut buffer = Buffer::new(8);

    assert_eq!(buffer.push('a'), 1);
    assert_eq!(buffer.push('b'), 2);
    assert_eq!(buffer.len(), 2);
}

// --- the level gate ---

/// A field value whose evaluation is observable.
fn side_effect(count: &mut usize) -> u64 {
    *count += 1;
    1
}

#[test]
fn fields_are_not_evaluated_when_the_level_gate_is_closed() {
    let mut gate = Gate::new();
    gate.close();
    let mut side_effects = 0;

    // What each log macro expands to: the level is checked before any field is evaluated.
    for level in [Level::Debug, Level::Info, Level::Warn, Level::Error] {
        if enabled(&gate, level) {
            side_effect(&mut side_effects);
        }
    }

    assert_eq!(
        side_effects, 0,
        "a gated-out record must not evaluate its arguments, or an expensive debug field would cost in release",
    );
}

#[test]
fn a_record_at_or_above_the_threshold_evaluates_its_fields() {
    let mut gate = Gate::new();
    gate.open(Level::Warn);
    let mut side_effects = 0;

    for level in [Level::Debug, Level::Info, Level::Warn, Level::Error] {
        if enabled(&gate, level) {
            side_effect(&mut side_effects);
        }
    }

    gate.close();

    assert_eq!(side_effects, 2);
}

#[test]
fn nothing_passes_the_gate_before_init() {
    let gate = Runtime::new().gate();

    assert!(!log::enabled(&gate, Level::Error), "even an error is discarded until init lowers the threshold");
    assert!(!rust_sak::o11y::trace::enabled(&gate));
}

// --- spans ---

#[test]
fn a_disabled_span_records_nothing_and_never_touches_the_stack() {
    let mut stack = SpanStack::new();
    let span = Span::__disabled();

    assert!(!span.is_recording());
    assert_eq!(stack.depth(), 0);

    assert!(span.close(&mut stack, 1).is_none());
    assert_eq!(stack.depth(), 0);
}

#[test]
fn a_nested_span_inherits_the_trace_id_and_records_its_parent() {
    let mut stack = SpanStack::new();
    let mut ids = IdGenerator::from_seed(42);

    let outer = Span::__enter(&mut stack, &mut ids, "outer".to_string(), Vec::new(), 1, attributes(0, "s"));
    let outer_context = stack.current_context().unwrap();
    let inner = Span::__enter(&mut stack, &mut ids, "inner".to_string(), Vec::new(), 2, attributes(0, "s"));
    assert_eq!(stack.depth(), 2);

    let inner_record = inner.close(&mut stack, 3).unwrap();
    let outer_record = outer.close(&mut stack, 4).unwrap();

    assert_eq!(inner_record.trace_id.0, outer_record.trace_id.0);
    assert_eq!(inner_record.parent_span_id.unwrap().0, outer_context.span_id());
    assert!(outer_record.parent_span_id.is_none());
    assert_eq!(stack.depth(), 0);
}

#[test]
fn guards_dropped_out_of_order_still_leave_the_stack_empty() {
    let mut stack = SpanStack::new();
    let mut ids = IdGenerator::from_seed(7);

    let outer = Span::__enter(&mut stack, &mut ids, "outer".to_string(), Vec::new(), 1, attributes(0, "s"));
    let inner = Span::__enter(&mut stack, &mut ids, "inner".to_string(), Vec::new(), 2, attributes(0, "s"));

    assert_eq!(outer.close(&mut stack, 3).unwrap().name, "outer");
    assert_eq!(stack.depth(), 1);
    assert_eq!(inner.close(&mut stack, 4).unwrap().name, "inner");
    assert_eq!(stack.depth(), 0);
}

#[test]
fn current_is_a_silent_no_op_when_no_span_is_open() {
    let mut stack = SpanStack::new();

    assert!(!current().is_recording(&stack));
    assert!(current().trace_id(&stack).is_none());

    current().set_attribute(&mut stack, "order_id".to_string(), Value::String("ord_8812".to_string()));
    current().add_event(&mut stack, "nothing is listening".to_string(), 1);
    current().set_error(&mut stack, "failed".to_string(), 1);
    assert_eq!(stack.depth(), 0);
}

#[test]
fn current_annotates_the_innermost_open_span() {
    let mut stack = SpanStack::new();
    let mut ids = IdGenerator::from_seed(9);
    let span = Span::__enter(&mut stack, &mut ids, "charge".to_string(), Vec::new(), 1, attributes(0, "s"));

    current().set_attribute(&mut stack, "order_id".to_string(), Value::Int(5));
    current().set_error(&mut stack, "card declined".to_string(), 2);
    assert!(current().is_recording(&stack));
    assert_eq!(current().span_id(&stack).unwrap().len(), 16);

    let record = span.close(&mut stack, 3).unwrap();
    assert_eq!(record.attributes.len(), 1);
    assert_eq!(record.events[0].name, "exception");
    assert_eq!(record.events[0].attributes[0].0, "exception.message");
}

#[test]
fn two_root_spans_get_different_traces() {
    let mut ids = IdGenerator::seeded();
    let first = ids.new_trace_id();
    let second = ids.new_trace_id();

    assert_ne!(first.0, second.0);
    assert_ne!(first.0, [0; 16]);
}

#[test]
fn a_generator_seeded_with_zero_still_draws_valid_ids() {
    let mut ids = IdGenerator::from_seed(0);

    for _ in 0..1000 {
        assert_ne!(ids.new_span_id().0, [0; 8]);
    }
}

#[test]
fn an_owned_span_can_continue_a_remote_trace() {
    let remote = SpanContext::from_traceparent("00-4bf92f3577b34da6a3ce929d0e0e4736-00f067aa0ba902b7-01").unwrap();
    let mut gate = Gate::new();
    gate.open(Level::Info);
    let stack = SpanStack::new();
    let mut ids = IdGenerator::from_seed(3);

    let mut span: OwnedSpan =
        start(&gate, &stack, &mut ids, "handle".to_string(), Parent::Context(remote), Vec::new(), 1, attributes(0, "s"));
    span.add_link(remote);
    span.set_error("timed out".to_string(), 2);
    let record = span.end(&gate, 3).unwrap();

    assert_eq!(record.trace_id.0, remote.trace_id());
    assert_eq!(record.parent_span_id.unwrap().0, remote.span_id());
    assert_eq!(record.status, Status::Error("timed out".to_string()));
    assert_eq!(record.links.len(), 1);
}

#[test]
fn an_owned_span_started_while_tracing_is_off_records_nothing() {
    let gate = Gate::new();
    let stack = SpanStack::new();
    let mut ids = IdGenerator::from_seed(3);

    let span = start(&gate, &stack, &mut ids, "off".to_string(), Parent::Root, Vec::new(), 1, attributes(0, "s"));

    assert!(!span.is_recording());
    assert!(span.context().is_none());
    assert!(span.end(&gate, 2).is_none());
}

// --- traceparent ---

#[test]
fn a_traceparent_round_trips() {
    let header = "00-4bf92f3577b34da6a3ce929d0e0e4736-00f067aa0ba902b7-01";
    let context = SpanContext::from_traceparent(header).unwrap();

    assert_eq!(context.trace_id_hex(), "4bf92f3577b34da6a3ce929d0e0e4736");
    assert_eq!(context.span_id_hex(), "00f067aa0ba902b7");
    assert_eq!(context.to_traceparent(), header);
}

#[test]
fn a_traceparent_is_read_as_the_specification_tells_a_receiver() {
    let valid = "00-4bf92f3577b34da6a3ce929d0e0e4736-00f067aa0ba902b7-01";
    assert!(SpanContext::from_traceparent(&format!("  {valid}\n")).is_some(), "surrounding whitespace is ignored");
    assert!(SpanContext::from_traceparent("01-4bf92f3577b34da6a3ce929d0e0e4736-00f067aa0ba902b7-01-extra").is_some());

    for invalid in [
        "00-4bf92f3577b34da6a3ce929d0e0e4736-00f067aa0ba902b7-01-extra",
        "ff-4bf92f3577b34da6a3ce929d0e0e4736-00f067aa0ba902b7-01",
        "00-00000000000000000000000000000000-00f067aa0ba902b7-01",
        "00-4bf92f3577b34da6a3ce929d0e0e4736-0000000000000000-01",
        "00-4BF92F3577B34DA6A3CE929D0E0E4736-00f067aa0ba902b7-01",
        "00-4bf92f3577b34da6a3ce929d0e0e473-00f067aa0ba902b7-01",
        "00-4bf92f3577b34da6a3ce929d0e0e4736-00f067aa0ba902b7-1",
        "00-4bf92f3577b34da6a3ce929d0e0e4736-00f067aa0ba902b7",
        "",
    ] {
        assert!(SpanContext::from_traceparent(invalid).is_none(), "{invalid:?} must be refused");
    }
}

#[test]
fn a_generated_context_survives_its_own_traceparent() {
    let mut ids = IdGenerator::from_seed(11);
    let mut stack = SpanStack::new();
    let _span = Span::__enter(&mut stack, &mut ids, "op".to_string(), Vec::new(), 1, attributes(0, "s"));
    let context = stack.current_context().unwrap();

    let parsed = SpanContext::from_traceparent(&context.to_traceparent()).unwrap();

    assert_eq!(parsed.trace_id(), context.trace_id());
    assert_eq!(parsed.span_id(), context.span_id());
}

// --- the runtime ---

#[test]
fn shutdown_without_init_does_nothing_and_is_safe_to_repeat() {
    let mut runtime = Runtime::new();

    assert!(!shutdown(&mut runtime));
    assert!(!shutdown(&mut runtime));
    assert_eq!(flush(&mut runtime), None);
    assert!(!is_enabled(&runtime));
}

#[test]
fn init_starts_once_and_refuses_a_second_start() {
    let mut runtime = Runtime::new();
    let config = Config::builder("https://collector.example.com", &[("authorization", "Bearer secret")])
        .service_name("checkout-service")
        .min_level(Level::Warn)
        .build();

    assert_eq!(
        runtime.init(config, Some("host"), "linux", "x86_64", 10).unwrap(),
        Started::Running { geolocation: false }
    );
    assert!(is_enabled(&runtime));
    assert!(session_id(&runtime).is_some());
    assert!(enabled(&runtime.gate(), Level::Warn));
    assert!(!enabled(&runtime.gate(), Level::Info));

    let again = Config::builder("https://collector.example.com", &[]).build();
    assert!(matches!(runtime.init(again, None, "linux", "x86_64", 11), Err(O11yError::AlreadyInitialized)));

    assert!(shutdown(&mut runtime), "the first stop has a worker to join");
    assert!(!shutdown(&mut runtime), "the second has none");
    assert!(!is_enabled(&runtime));
    assert_eq!(session_id(&runtime), None);
}

#[test]
fn init_rejects_an_endpoint_that_is_not_a_url() {
    let mut runtime = Runtime::new();
    let error = runtime.init(Config::builder("not a url", &[]).build(), None, "linux", "x86_64", 0).unwrap_err();

    assert!(matches!(error, O11yError::InvalidEndpoint { .. }));
}

#[test]
fn init_rejects_a_header_that_cannot_be_sent() {
    let mut runtime = Runtime::new();
    let config = Config::builder("http://127.0.0.1:1", &[("bad header name", "value")]).build();
    let error = runtime.init(config, None, "linux", "x86_64", 0).unwrap_err();

    assert!(matches!(error, O11yError::InvalidHeader { ref name } if name == "bad header name"));
}

#[test]
fn disabled_telemetry_installs_nothing_and_keeps_the_gates_shut() {
    let mut runtime = Runtime::new();
    let config = Config::builder("https://collector.example.com", &[]).enabled(false).build();

    assert_eq!(runtime.init(config, None, "linux", "x86_64", 0).unwrap(), Started::Disabled);
    assert!(!is_enabled(&runtime));
    assert!(!enabled(&runtime.gate(), Level::Error));
}

#[test]
fn a_flush_is_answered_by_the_next_export_cycle() {
    let mut runtime = Runtime::new();
    runtime.init(Config::builder("https://collector.example.com", &[]).build(), None, "linux", "x86_64", 0).unwrap();

    let target = flush(&mut runtime).unwrap();
    assert_eq!(runtime.wait_decision(), WaitDecision::ExportNow);
    assert!(!runtime.flushed(target));

    runtime.finish_cycle();
    assert!(runtime.flushed(target));
    assert_eq!(runtime.wait_decision(), WaitDecision::KeepWaiting);

    shutdown(&mut runtime);
    assert_eq!(runtime.wait_decision(), WaitDecision::ShutDown);
}

#[test]
fn a_flush_without_a_running_pipeline_changes_nothing() {
    let mut runtime = Runtime::new();
    assert_eq!(flush(&mut runtime), None);
    assert!(runtime.installed().is_none());

    runtime.init(Config::builder("https://collector.example.com", &[]).build(), None, "linux", "x86_64", 0).unwrap();
    shutdown(&mut runtime);
    assert_eq!(flush(&mut runtime), None);
    assert!(!runtime.installed().unwrap().control.flush_requested);
}

#[test]
fn init_installs_the_configuration_it_was_given() {
    let mut runtime = Runtime::new();
    let config = Config::builder("https://collector.example.com", &[("authorization", "Bearer secret")])
        .flush_interval(250)
        .max_batch_size(3)
        .max_buffered(2)
        .timeout(750)
        .build();
    runtime.init(config, None, "linux", "x86_64", 0).unwrap();

    let installed = runtime.installed().unwrap();
    assert_eq!(installed.config.headers, vec![("authorization".to_string(), "Bearer secret".to_string())]);
    assert_eq!(installed.config.flush_interval_ms, 250);
    assert_eq!(installed.config.max_batch_size, 3);
    assert_eq!(installed.config.max_buffered, 2);
    assert_eq!(installed.config.timeout_ms, 750);

    let stack = SpanStack::new();
    for (n, body) in ["a", "b", "c"].into_iter().enumerate() {
        log::emit(&mut runtime, &stack, Level::Info, body.to_string(), Vec::new(), n as u64);
    }
    let batch = runtime.take_batch().unwrap();
    let bodies: Vec<&str> = batch.logs.iter().map(|r| r.body.as_str()).collect();
    assert_eq!(bodies, vec!["b", "c"], "each buffer holds `max_buffered` records, the newest ones");
    assert_eq!(batch.logs_dropped, 1);
}

#[test]
fn a_new_record_keeps_the_ones_already_buffered() {
    let mut runtime = Runtime::new();
    runtime.init(Config::builder("https://collector.example.com", &[]).build(), None, "linux", "x86_64", 0).unwrap();
    let stack = SpanStack::new();
    log::emit(&mut runtime, &stack, Level::Info, "first".to_string(), Vec::new(), 1);
    log::emit(&mut runtime, &stack, Level::Warn, "second".to_string(), Vec::new(), 2);
    runtime.record_span(span_record("op"));
    runtime.record_span(span_record("op2"));

    let batch = runtime.take_batch().unwrap();
    let bodies: Vec<&str> = batch.logs.iter().map(|r| r.body.as_str()).collect();
    assert_eq!(bodies, vec!["first", "second"]);
    let names: Vec<&str> = batch.spans.iter().map(|s| s.name.as_str()).collect();
    assert_eq!(names, vec!["op", "op2"]);
}

#[test]
fn renewing_to_a_given_session_keeps_the_machine_attributes() {
    let mut enrichment = Enrichment::new(Some("abc123"), "linux", "x86_64");
    let session = "123e4567-e89b-12d3-a456-426614174000";
    enrichment.renew_session_to(session.to_string());

    assert_eq!(enrichment.session_id(), session);
    assert_eq!(enrichment.generation(), 1);
    let rendered = enrichment.attributes();
    let keys: Vec<&str> = rendered.fields.iter().map(|(key, _)| key.as_str()).collect();
    assert_eq!(keys, vec!["machine.id", "machine.os", "machine.arch", "session.id"]);
    assert!(matches!(&rendered.fields[3].1, Value::String(s) if s == session));
}

#[test]
fn renewing_the_session_replaces_the_id_for_later_records_only() {
    let mut runtime = Runtime::new();
    let config = Config::builder("https://collector.example.com", &[]).max_batch_size(2).build();
    runtime.init(config, None, "linux", "x86_64", 0).unwrap();
    let stack = SpanStack::new();

    let before = session_id(&runtime).unwrap();
    assert!(!log::emit(&mut runtime, &stack, Level::Info, "first".to_string(), Vec::new(), 1));
    renew_session(&mut runtime);
    let after = session_id(&runtime).unwrap();
    assert_ne!(before, after);
    assert!(log::emit(&mut runtime, &stack, Level::Info, "second".to_string(), Vec::new(), 2), "the batch is full");

    let batch = runtime.take_batch().unwrap();
    assert_eq!(batch.logs.len(), 2);
    assert_ne!(batch.logs[0].enrichment.generation, batch.logs[1].enrichment.generation);

    let payload = logs(batch.logs, &Vec::new());
    assert_eq!(len(member(&payload, "resourceLogs")), 2, "each session gets its own resource block");
}

#[test]
fn a_record_emitted_inside_a_span_carries_its_context() {
    let mut runtime = Runtime::new();
    runtime.init(Config::builder("https://collector.example.com", &[]).build(), None, "linux", "x86_64", 0).unwrap();
    let mut stack = SpanStack::new();
    let mut ids = IdGenerator::from_seed(5);
    let _span = Span::__enter(&mut stack, &mut ids, "op".to_string(), Vec::new(), 1, runtime_attributes(&runtime));
    let context = stack.current_context().unwrap();

    log::emit(&mut runtime, &stack, Level::Error, "failed".to_string(), Vec::new(), 2);

    let batch = runtime.take_batch().unwrap();
    assert_eq!(batch.logs[0].trace_id.unwrap().0, context.trace_id());
    assert_eq!(batch.logs[0].span_id.unwrap().0, context.span_id());
}

/// The enrichment rendering a span opened now under `runtime` carries.
fn runtime_attributes(runtime: &Runtime) -> Arc<Attributes> {
    runtime.attributes()
}

#[test]
fn the_backoff_doubles_from_the_flush_interval_up_to_a_minute() {
    assert_eq!(next_backoff(0, 5000), 5000);
    assert_eq!(next_backoff(5000, 5000), 10000);
    assert_eq!(next_backoff(40000, 5000), 60000);
    assert_eq!(next_backoff(0, 120_000), 60000);
    assert_eq!(next_backoff(u64::MAX, 5000), 60000);
}

#[test]
fn the_worker_is_woken_exactly_when_a_buffer_reaches_the_batch_size() {
    assert!(should_wake(512, 512));
    assert!(!should_wake(511, 512));
    assert!(!should_wake(513, 512));
}

#[test]
fn each_signal_is_posted_to_its_own_otlp_path() {
    assert_eq!(export_url("https://collector.example.com/", Signal::Logs), "https://collector.example.com/v1/logs");
    assert_eq!(export_url("https://c.example//", Signal::Traces), "https://c.example/v1/traces");
    assert_eq!(export_url("https://c.example", Signal::Metrics), "https://c.example/v1/metrics");
}

#[test]
fn a_rejected_payload_keeps_only_the_start_of_the_body() {
    let long = "x".repeat(2000);

    assert_eq!(rejection_body(&long).len(), 512);
    assert_eq!(rejection_body("bad request"), "bad request");
}

#[test]
fn a_control_state_starts_idle() {
    let mut control = Control::new();

    assert_eq!(control.wait_decision(), WaitDecision::KeepWaiting);
    assert_eq!(control.request_flush(), Some(1));
    control.finish_cycle();
    assert!(control.served(1));
}

// --- configuration ---

#[test]
fn a_header_set_twice_keeps_its_last_value() {
    let config = Config::builder("https://c.example", &[("a", "1")]).header("a", "2").header("b", "3").build();

    assert_eq!(config.headers, vec![("a".to_string(), "2".to_string()), ("b".to_string(), "3".to_string())]);
}

#[test]
fn a_resource_attribute_cannot_shadow_one_the_module_sets() {
    let config = Config::builder("https://c.example", &[])
        .resource_attribute("service.name", Value::String("spoofed".to_string()))
        .resource_attribute("host.gpu", Value::String("rtx".to_string()))
        .resource_attribute("host.gpu", Value::String("arc".to_string()))
        .build();

    assert_eq!(config.resource.len(), 1);
    assert_eq!(config.resource[0].0, "host.gpu");
    assert!(matches!(&config.resource[0].1, Value::String(s) if s == "arc"));
}

#[test]
fn the_defaults_are_the_documented_ones() {
    let config = Config::builder("https://c.example", &[]).build();

    assert_eq!(config.min_level, Level::Info);
    assert_eq!(config.max_batch_size, 512);
    assert_eq!(config.max_buffered, 8192);
    assert_eq!(config.timeout_ms, 10_000);
    assert_eq!(config.flush_interval_ms, 5_000);
    assert!(config.enabled);
    assert!(!config.geolocation);
    assert_eq!(config.geolocation_url, "https://ipinfo.io");
    assert_eq!(config.environment, Environment::Development);
}

#[test]
fn the_telemetry_builder_joins_the_logs_path_and_validates_headers() {
    let built = TelemetryBuilder::new("https://collector.example.com/", "my-app")
        .version("1.2.3")
        .header("authorization", "Bearer secret")
        .headers(&[("x-team", "payments")])
        .geolocation(true)
        .build(Some("host"), "linux", "x86_64")
        .unwrap();
    let exporter = built.exporter.unwrap();

    assert_eq!(exporter.logs_endpoint, "https://collector.example.com/v1/logs");
    assert_eq!(exporter.headers.len(), 2);
    assert_eq!(built.geolocation_url.as_deref(), Some("https://ipinfo.io"));

    let refused = TelemetryBuilder::new("https://collector.example.com", "my-app").header("bad name", "v").build(None, "linux", "x86_64");
    assert!(matches!(refused, Err(O11yError::InvalidHeader { .. })));

    let disabled = TelemetryBuilder::new("not a url", "my-app").enabled(false).build(None, "linux", "x86_64").unwrap();
    assert!(disabled.exporter.is_none(), "a disabled handle validates nothing and exports nothing");

    assert!(matches!(logs_endpoint("not a url"), Err(O11yError::InvalidEndpoint { .. })));
}

// --- enrichment ---

#[test]
fn every_record_carries_the_machine_and_session_attributes() {
    let enrichment = Enrichment::new(Some("abc123"), "macos", "aarch64");
    let rendered = enrichment.attributes();
    let value_of = |wanted: &str| {
        rendered.fields.iter().find(|(key, _)| key == wanted).map(|(_, value)| match value {
            Value::String(s) => s.clone(),
            other => panic!("{other:?} is not a string"),
        })
    };

    assert_eq!(value_of("machine.os").as_deref(), Some("macos"));
    assert_eq!(value_of("machine.arch").as_deref(), Some("aarch64"));
    assert!(value_of("session.id").is_some());
    let keys: Vec<&str> = rendered.fields.iter().map(|(key, _)| key.as_str()).collect();
    assert_eq!(keys, vec!["machine.id", "machine.os", "machine.arch", "session.id"]);
}

#[test]
fn a_second_location_replaces_the_first_rather_than_being_appended() {
    let mut enrichment = Enrichment::new(None, "linux", "x86_64");
    let located = |country: &str| Geolocation { country: Some(country.to_string()), city: Some(String::new()), ..Default::default() };

    enrichment.set_location(&located("NL"));
    enrichment.set_location(&located("DE"));

    let rendered = enrichment.attributes();
    let countries: Vec<&Value> =
        rendered.fields.iter().filter(|(key, _)| key == "location.country").map(|(_, value)| value).collect();
    assert_eq!(countries.len(), 1);
    assert!(matches!(countries[0], Value::String(s) if s == "DE"));
    assert!(!rendered.fields.iter().any(|(key, _)| key == "location.city"), "an empty city is skipped");
    assert_eq!(enrichment.generation(), 2);
}

#[test]
fn the_machine_id_is_scoped_to_the_service() {
    let one = rust_sak::o11y::pipeline::machine_id("host-id", "service-a");
    let other = rust_sak::o11y::pipeline::machine_id("host-id", "service-b");

    assert_eq!(one.len(), 64);
    assert_ne!(one, other);
    assert_ne!(one, "host-id");
    assert_eq!(one, rust_sak::o11y::pipeline::machine_id("host-id", "service-a"));
}

#[test]
fn a_geolocation_lookup_asks_the_json_endpoint() {
    assert_eq!(lookup_url("https://ipinfo.io"), "https://ipinfo.io/json");
    assert_eq!(lookup_url("https://ipinfo.example.internal//"), "https://ipinfo.example.internal/json");
}

// --- OTLP/JSON ---

#[test]
fn sixty_four_bit_integers_are_encoded_as_json_strings() {
    let payload = logs(vec![log_record("order received")], &Vec::new());
    let record = at(member(at(member(at(member(&payload, "resourceLogs"), 0), "scopeLogs"), 0), "logRecords"), 0);

    assert_eq!(text(member(record, "timeUnixNano")), "1758412800000000000");
}

#[test]
fn the_exported_log_payload_has_the_shape_a_collector_expects() {
    let base = resource_attributes("test-service", "1.2.3", &Environment::Development, Vec::new());
    let payload = logs(vec![log_record("order received")], &base);
    let block = at(member(&payload, "resourceLogs"), 0);
    let scope_logs = at(member(block, "scopeLogs"), 0);
    let record = at(member(scope_logs, "logRecords"), 0);

    assert_eq!(text(member(member(scope_logs, "scope"), "name")), "rust-sak/o11y");
    assert!(matches!(member(record, "severityNumber"), Json::Number(9)), "9 is INFO");
    assert_eq!(text(member(record, "severityText")), "INFO");
    assert_eq!(text(member(member(record, "body"), "stringValue")), "order received");
    assert_eq!(text(member(at(member(record, "attributes"), 0), "key")), "order_id");
    assert!(!has(record, "traceId"), "a record emitted outside a span carries no trace id");

    let resource: Vec<&str> = match member(member(block, "resource"), "attributes") {
        Json::Array(entries) => entries.iter().map(|entry| text(member(entry, "key"))).collect(),
        other => panic!("{other:?} is not an array"),
    };
    assert!(resource.contains(&"service.name"));
    assert!(resource.contains(&"service.version"));
    assert!(resource.contains(&"deployment.environment.name"));
    assert!(resource.contains(&"session.id"), "the session travels with the batch, not with each record");
}

#[test]
fn a_record_emitted_inside_a_span_carries_its_ids_as_lowercase_hex() {
    let mut record = log_record("inside");
    record.trace_id = Some(TraceId([0xab; 16]));
    record.span_id = Some(SpanId([0xcd; 8]));

    let payload = logs(vec![record], &Vec::new());
    let encoded = at(member(at(member(at(member(&payload, "resourceLogs"), 0), "scopeLogs"), 0), "logRecords"), 0);

    assert_eq!(text(member(encoded, "traceId")), "abababababababababababababababab");
    assert_eq!(text(member(encoded, "spanId")), "cdcdcdcdcdcdcdcd");
}

#[test]
fn records_emitted_under_different_sessions_get_their_own_resource_blocks() {
    let mut first = log_record("a");
    let mut second = log_record("b");
    let mut third = log_record("c");
    first.enrichment = attributes(1, "one");
    second.enrichment = attributes(2, "two");
    third.enrichment = attributes(1, "one");

    let payload = logs(vec![first, second, third], &Vec::new());
    let blocks = member(&payload, "resourceLogs");

    assert_eq!(len(blocks), 2);
    assert_eq!(len(member(at(member(at(blocks, 0), "scopeLogs"), 0), "logRecords")), 2);
    assert_eq!(len(member(at(member(at(blocks, 1), "scopeLogs"), 0), "logRecords")), 1);
}

#[test]
fn every_value_variant_maps_onto_an_otlp_any_value() {
    let mut record = log_record("values");
    record.fields = vec![
        ("flag".to_string(), Value::Bool(true)),
        ("count".to_string(), Value::Int(5)),
        ("ratio".to_string(), Value::Double(0.5f64.to_bits())),
        ("codec".to_string(), Value::String("avif".to_string())),
        ("blob".to_string(), Value::Bytes(vec![0, 1, 2])),
        ("list".to_string(), Value::List(vec![Value::Int(1), Value::Int(2)])),
        ("map".to_string(), Value::Entries(vec![("k".to_string(), Value::Int(-3))])),
    ];

    let payload = logs(vec![record], &Vec::new());
    let attributes = member(
        at(member(at(member(at(member(&payload, "resourceLogs"), 0), "scopeLogs"), 0), "logRecords"), 0),
        "attributes",
    );

    assert!(matches!(member(member(at(attributes, 0), "value"), "boolValue"), Json::Bool(true)));
    assert_eq!(text(member(member(at(attributes, 1), "value"), "intValue")), "5");
    assert!(matches!(member(member(at(attributes, 2), "value"), "doubleValue"), Json::Double(bits) if f64::from_bits(*bits) == 0.5));
    assert_eq!(text(member(member(at(attributes, 3), "value"), "stringValue")), "avif");
    assert_eq!(text(member(member(at(attributes, 4), "value"), "bytesValue")), "AAEC");
    let list = member(member(member(at(attributes, 5), "value"), "arrayValue"), "values");
    assert_eq!(text(member(at(list, 1), "intValue")), "2");
    let map = member(member(member(at(attributes, 6), "value"), "kvlistValue"), "values");
    assert_eq!(text(member(at(map, 0), "key")), "k");
    assert_eq!(text(member(member(at(map, 0), "value"), "intValue")), "-3");
}

#[test]
fn byte_values_are_base64_encoded_with_the_right_padding() {
    let cases: [(&[u8], &str); 7] = [
        (b"", ""),
        (b"f", "Zg=="),
        (b"fo", "Zm8="),
        (b"foo", "Zm9v"),
        (b"foob", "Zm9vYg=="),
        (b"fooba", "Zm9vYmE="),
        (b"foobar", "Zm9vYmFy"),
    ];

    for (bytes, expected) in cases {
        assert_eq!(base64(bytes), expected, "encoding {bytes:?}");
    }
    assert_eq!(base64(&[0xff, 0xfe, 0xfd]), "//79");
}

#[test]
fn a_span_carries_its_parent_links_and_failure() {
    let mut record = span_record("charge");
    record.parent_span_id = Some(SpanId([3; 8]));
    record.links = vec![SpanContext::from_traceparent("00-4bf92f3577b34da6a3ce929d0e0e4736-00f067aa0ba902b7-01").unwrap()];
    record.status = Status::Error("declined".to_string());

    let payload = traces(vec![record, span_record("plain")], &Vec::new());
    let spans = member(at(member(at(member(&payload, "resourceSpans"), 0), "scopeSpans"), 0), "spans");
    let first = at(spans, 0);

    assert_eq!(text(member(first, "traceId")), "01010101010101010101010101010101");
    assert_eq!(text(member(first, "parentSpanId")), "0303030303030303");
    assert!(matches!(member(first, "kind"), Json::Number(1)));
    assert_eq!(text(member(first, "startTimeUnixNano")), "5");
    assert_eq!(text(member(at(member(first, "links"), 0), "spanId")), "00f067aa0ba902b7");
    assert!(matches!(member(member(first, "status"), "code"), Json::Number(2)));
    assert_eq!(text(member(member(first, "status"), "message")), "declined");

    let second = at(spans, 1);
    assert!(!has(second, "parentSpanId") && !has(second, "links") && !has(second, "status"));
}

#[test]
fn a_counter_is_reported_as_a_cumulative_monotonic_sum() {
    let mut counter = rust_sak::o11y::metric::counter("orders_total");
    counter.increment(3);
    let payload = metrics(&vec![counter.snapshot()], &Vec::new(), &Vec::new(), 1, 2);
    let metric = at(member(at(member(at(member(&payload, "resourceMetrics"), 0), "scopeMetrics"), 0), "metrics"), 0);
    let sum = member(metric, "sum");

    assert_eq!(text(member(metric, "name")), "orders_total");
    assert!(matches!(member(sum, "aggregationTemporality"), Json::Number(2)), "2 is CUMULATIVE");
    assert!(matches!(member(sum, "isMonotonic"), Json::Bool(true)));
    assert_eq!(text(member(at(member(sum, "dataPoints"), 0), "asInt")), "3");
    assert_eq!(text(member(at(member(sum, "dataPoints"), 0), "startTimeUnixNano")), "1");
}

// --- the tracing bridge ---

#[test]
fn an_event_borrows_the_fields_of_its_folded_spans_and_attaches_to_the_nearest_exported_one() {
    let exported = SpanContext::from_traceparent("00-4bf92f3577b34da6a3ce929d0e0e4736-00f067aa0ba902b7-01").unwrap();
    let ancestors = vec![
        Ancestor::Folded(vec![
            ("request_id".to_string(), Value::String("r-1".to_string())),
            ("user".to_string(), Value::String("ignored".to_string())),
        ]),
        Ancestor::Untracked,
        Ancestor::Exported(Some(exported)),
        Ancestor::Folded(vec![("outer".to_string(), Value::Int(1))]),
    ];
    let fields = vec![("user".to_string(), Value::String("alice".to_string()))];

    let plan = plan_event(fields, &ancestors, Level::Error, "my_app::handler");
    let keys: Vec<&str> = plan.fields.iter().map(|(key, _)| key.as_str()).collect();

    assert_eq!(keys, vec!["user", "request_id", "outer", "target"]);
    assert!(matches!(&plan.fields[0].1, Value::String(s) if s == "alice"), "the event's own field wins");
    assert_eq!(plan.context.unwrap().span_id(), exported.span_id());
    assert_eq!(plan.fail, Some(2));

    let quiet = plan_event(Vec::new(), &Vec::new(), Level::Info, "t");
    assert!(quiet.context.is_none() && quiet.fail.is_none());
}

#[test]
fn a_string_message_on_an_event_becomes_the_body() {
    let mut event = Collect::event();
    event.keep("message", Value::String("order received".to_string()));
    event.keep("count", Value::Int(2));

    assert_eq!(event.message.as_deref(), Some("order received"));
    assert_eq!(event.fields.len(), 1);

    let mut span = Collect::span();
    span.keep("message", Value::String("stays a field".to_string()));
    assert!(span.message.is_none());
    assert_eq!(span.fields.len(), 1);
}

#[test]
fn an_unsigned_field_too_large_for_an_integer_keeps_its_exact_digits() {
    assert!(matches!(unsigned_value(7), Value::Int(7)));
    assert!(matches!(unsigned_value(u64::MAX), Value::String(s) if s == "18446744073709551615"));
    assert!(matches!(Value::from_u64(u64::MAX), Value::Int(i64::MAX)));
}

#[test]
fn a_string_literal_key_carries_a_dotted_semantic_convention_name() {
    let fields: Fields = vec![("http.response.status_code".to_string(), Value::from_u64(200))];

    assert_eq!(fields[0].0, "http.response.status_code");
}

#[test]
fn no_fields_produces_an_empty_set() {
    let fields: Fields = Vec::new();

    assert!(fields.is_empty());
}

#[test]
fn an_integer_field_is_encoded_as_a_string_too() {
    let mut record = log_record("counted");
    record.fields = vec![("bytes".to_string(), Value::from_u64(1_048_576))];

    let payload = logs(vec![record], &Vec::new());
    let log = at(member(at(member(at(member(&payload, "resourceLogs"), 0), "scopeLogs"), 0), "logRecords"), 0);
    let attribute = at(member(log, "attributes"), 0);

    assert_eq!(text(member(member(attribute, "value"), "intValue")), "1048576");
}

#[test]
fn a_record_emitted_outside_a_span_carries_no_trace_id() {
    let payload = logs(vec![log_record("no span")], &Vec::new());
    let log = at(member(at(member(at(member(&payload, "resourceLogs"), 0), "scopeLogs"), 0), "logRecords"), 0);

    assert!(
        !has(log, "traceId"),
        "an absent identifier is omitted, not sent as an empty string, which would be malformed",
    );
}

#[test]
fn the_service_attributes_go_in_the_resource_block_not_on_each_record() {
    let base = vec![("service.name".to_string(), Value::from_str("checkout-service"))];
    let payload = logs(vec![log_record("order received")], &base);
    let block = at(member(&payload, "resourceLogs"), 0);

    let resource = member(member(block, "resource"), "attributes");
    assert!((0..len(resource)).any(|i| text(member(at(resource, i), "key")) == "service.name"));

    let log = at(member(at(member(block, "scopeLogs"), 0), "logRecords"), 0);
    let on_record = member(log, "attributes");
    assert!((0..len(on_record)).all(|i| text(member(at(on_record, i), "key")) != "service.name"));
}

#[test]
fn a_counter_accumulates_across_calls() {
    let mut counter = counter("accumulating");
    counter.increment(2);
    counter.increment(3);

    let snapshot = counter.snapshot();
    let MetricData::Sum(points) = &snapshot.data else { panic!("expected a sum") };

    assert_eq!(points.iter().find(|point| point.tags.is_empty()).unwrap().value, 5);
}

#[test]
fn the_series_cap_folds_the_overflow_into_a_single_marked_series() {
    let mut counter = counter("high_cardinality");

    // Well past the per-instrument cap, as an unbounded tag domain — a request id, say — would be.
    for index in 0..(MAX_SERIES + 50) {
        counter.add_with_tags(1, &[("request_id", &index.to_string())]);
    }

    let snapshot = counter.snapshot();
    let MetricData::Sum(points) = &snapshot.data else { panic!("expected a sum") };

    let overflow = points
        .iter()
        .find(|point| point.tags.iter().any(|(key, _)| key == "o11y.series_overflow"))
        .expect("samples past the cap fold into an overflow series");

    assert_eq!(overflow.value, 50, "the total is preserved even though the breakdown stops");
    assert!(points.len() <= MAX_SERIES + 2, "memory stays bounded: {} series", points.len());
}

#[test]
fn a_resolved_location_reaches_the_enrichment() {
    let mut runtime = Runtime::new();
    runtime.init(Config::builder("https://collector.example.com", &[]).build(), None, "linux", "x86_64", 0).unwrap();

    runtime.set_location(&Geolocation { country: Some("NL".to_string()), ..Default::default() });

    let rendered = runtime.attributes();
    assert_eq!(rendered.generation, 1);
    assert!(rendered
        .fields
        .iter()
        .any(|(key, value)| key == "location.country" && matches!(value, Value::String(s) if s == "NL")));
}

#[test]
fn an_export_posts_each_signal_to_its_own_otlp_path() {
    let mut runtime = Runtime::new();
    runtime.init(Config::builder("https://collector.example.com", &[]).build(), None, "linux", "x86_64", 0).unwrap();
    let stack = SpanStack::new();

    log::emit(&mut runtime, &stack, Level::Info, "order received".to_string(), Vec::new(), 1);
    runtime.record_span(span_record("charge_card"));
    let mut exported = counter("exported_total");
    exported.increment(1);

    let batch = runtime.take_batch().unwrap();
    let posts = payloads(&runtime, batch, vec![exported.snapshot()], 2);

    let signals: Vec<Signal> = posts.iter().map(|(signal, _)| *signal).collect();
    assert_eq!(signals, vec![Signal::Logs, Signal::Traces, Signal::Metrics], "three separate requests");
    let paths: Vec<String> = signals.iter().map(|signal| export_url("https://collector.example.com", *signal)).collect();
    assert!(paths.contains(&"https://collector.example.com/v1/logs".to_string()));
    assert!(paths.contains(&"https://collector.example.com/v1/traces".to_string()));
    assert!(paths.contains(&"https://collector.example.com/v1/metrics".to_string()));
    assert!(has(&posts[0].1, "resourceLogs"));
    assert!(has(&posts[1].1, "resourceSpans"));
    assert!(has(&posts[2].1, "resourceMetrics"));
}

#[test]
fn a_rejected_payload_reaches_the_error_callback() {
    let error = judge_response(Signal::Logs, 503, "overloaded").expect("a 503 is a rejection");

    match error {
        O11yError::ExportRejected { signal, status, body } => {
            assert_eq!(signal, Signal::Logs, "the callback says which stream failed");
            assert_eq!(status, 503);
            assert_eq!(body, "overloaded");
        }
        other => panic!("expected a rejection, got {other:?}"),
    }
}

#[test]
fn discarded_records_are_reported_through_the_callback() {
    // A buffer of its own, sized so the overflow is deterministic rather than depending on the default.
    let mut buffer = Buffer::new(2);
    for _ in 0..5 {
        buffer.push(log_record("overflowing"));
    }
    let (_kept, dropped) = buffer.take();
    assert_eq!(dropped, 3);

    let mut runtime = Runtime::new();
    let config = Config::builder("http://127.0.0.1:1", &[]).max_buffered(2).build();
    runtime.init(config, None, "linux", "x86_64", 0).unwrap();
    let stack = SpanStack::new();
    for now in 0..5 {
        log::emit(&mut runtime, &stack, Level::Info, "overflowing".to_string(), Vec::new(), now);
    }

    let batch = runtime.take_batch().unwrap();
    assert_eq!(drop_reports(&batch), vec![(Signal::Logs, 3)]);
}

#[test]
fn only_the_streams_that_lost_records_are_reported_and_only_what_is_there_is_posted() {
    let mut runtime = Runtime::new();
    let config = Config::builder("https://collector.example.com", &[]).max_buffered(1).build();
    runtime.init(config, None, "linux", "x86_64", 0).unwrap();
    runtime.record_span(span_record("one"));
    runtime.record_span(span_record("two"));

    let batch = runtime.take_batch().unwrap();
    assert_eq!(drop_reports(&batch), vec![(Signal::Traces, 1)]);

    let posts = payloads(&runtime, batch, Vec::new(), 3);
    assert_eq!(posts.len(), 1);
    assert_eq!(posts[0].0, Signal::Traces);

    assert!(payloads(&Runtime::new(), runtime.take_batch().unwrap(), Vec::new(), 4).is_empty(), "nothing installed");
}

#[test]
fn a_collector_answer_inside_2xx_is_an_acceptance() {
    assert!(judge_response(Signal::Metrics, 200, "").is_none());
    assert!(judge_response(Signal::Metrics, 204, "").is_none());
    assert!(judge_response(Signal::Metrics, 299, "").is_none());
    assert!(judge_response(Signal::Metrics, 199, "").is_some());
    assert!(judge_response(Signal::Metrics, 300, "").is_some());

    let Some(O11yError::ExportRejected { body, .. }) = judge_response(Signal::Traces, 500, &"x".repeat(600)) else {
        panic!("expected a rejection")
    };
    assert_eq!(body.len(), 512);
}

#[test]
fn the_error_field_is_found_by_its_first_occurrence() {
    let fields: Fields = vec![
        ("a".to_string(), Value::Int(1)),
        ("error".to_string(), Value::from_str("boom")),
        ("error".to_string(), Value::Int(2)),
    ];

    assert!(matches!(error_value(&fields), Some(Value::String(s)) if s == "boom"));
    assert!(error_value(&vec![("a".to_string(), Value::Int(1))]).is_none());
}

#[test]
fn a_field_set_again_takes_the_new_value_in_place_and_a_new_name_is_appended() {
    let mut fields: Fields = vec![("a".to_string(), Value::Int(1)), ("b".to_string(), Value::Int(2))];

    set_field(&mut fields, "a".to_string(), Value::Int(3));
    set_field(&mut fields, "c".to_string(), Value::Int(4));

    let names: Vec<&str> = fields.iter().map(|(name, _)| name.as_str()).collect();
    assert_eq!(names, vec!["a", "b", "c"]);
    assert!(matches!(fields[0].1, Value::Int(3)));
    assert!(matches!(fields[2].1, Value::Int(4)));
}

#[test]
fn a_session_id_is_a_hyphenated_lowercase_uuid() {
    let mut runtime = Runtime::new();
    runtime.init(Config::builder("https://collector.example.com", &[]).build(), None, "linux", "x86_64", 0).unwrap();

    let id = session_id(&runtime).unwrap();

    assert_eq!(id.len(), 36);
    for (i, c) in id.chars().enumerate() {
        if [8, 13, 18, 23].contains(&i) {
            assert_eq!(c, '-');
        } else {
            assert!(c.is_ascii_hexdigit() && !c.is_ascii_uppercase(), "{id}");
        }
    }
}

#[test]
fn the_resource_carries_the_built_in_attributes_then_the_caller_s() {
    let mut runtime = Runtime::new();
    let config = Config::builder("https://collector.example.com", &[])
        .service_name("checkout")
        .resource_attribute("host.arch", Value::from_str("arm64"))
        .build();
    runtime.init(config, Some("host"), "linux", "x86_64", 0).unwrap();

    let resource = &runtime.installed().unwrap().resource;
    let keys: Vec<&str> = resource.iter().map(|(key, _)| key.as_str()).collect();

    assert_eq!(
        keys,
        vec!["service.name", "deployment.environment.name", "telemetry.sdk.name", "telemetry.sdk.language", "host.arch"]
    );
}

#[test]
fn nothing_passes_the_gates_unless_telemetry_is_running() {
    let mut runtime = Runtime::new();
    assert!(!enabled(&runtime.gate(), Level::Error) && !tracing_enabled(&runtime.gate()));

    runtime.init(Config::builder("https://collector.example.com", &[]).build(), None, "linux", "x86_64", 0).unwrap();
    assert!(enabled(&runtime.gate(), Level::Error) && tracing_enabled(&runtime.gate()));

    runtime.silence();
    assert!(!enabled(&runtime.gate(), Level::Error) && !tracing_enabled(&runtime.gate()));
    assert!(is_enabled(&runtime), "a silenced pipeline is still installed until it is stopped");

    shutdown(&mut runtime);
    assert!(!enabled(&runtime.gate(), Level::Error) && !tracing_enabled(&runtime.gate()));
    assert!(!is_enabled(&runtime));
}
