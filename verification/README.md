# rust_sak

Observability (logs, metrics and traces exported as OTLP/JSON) and hardware probes (processor, memory, graphics
adapters), with their logic verified by Verus.

## Layout

- `src/` — the verified library.
  - `o11y/` — the level gate, the bounded drop-oldest buffers, metric instruments and their capped per-tag-set
    series, trace and span identifiers and the W3C `traceparent` form, the per-thread span stack, owned spans, the
    enrichment attributes, the configuration and its validation, the runtime state the export thread answers to,
    the export cycle's plan, the OTLP/JSON payloads, and the decisions behind the `tracing` bridge.
  - `sysinfo/` — vendor naming, the kernel's DRM attribute files, the `pci.ids` database, the buffers the graphics
    APIs fill, and what counts as a GPU.
  - `text.rs` — character-level helpers the parsers share.
- `tests/` — tests of the library, run against the compiled crate.
- `app/` — the process around the library: the global pipeline behind a lock, the export thread and its HTTP
  client, thread-local span stacks, the log and span macros, the `tracing` layer, the geolocation lookup, and the
  calls that ask the operating system about its hardware.

The contracts speak of mathematical models: a buffer is a sequence of entries and a drop tally, a counter a map from
tag sets to totals, a span stack a sequence of open spans, a payload a JSON value. Laws that relate several calls —
that a `traceparent` round-trips, that closing a span undoes entering it, that a flush is served by the next export
cycle, that stopping twice is stopping once — are stated as proof functions beside the code they speak of.
