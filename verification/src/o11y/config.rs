//! What telemetry is started with: the collector, the service's identity, and the knobs on buffering and export.

use vstd::prelude::*;

use super::environment::Environment;
use super::geolocation::{DEFAULT_TIMEOUT_MS, DEFAULT_URL};
use super::level::Level;
use super::value::{Fields, Value};
use crate::text::{matches_at, starts_with, text_is};

verus! {

/// One header as text: its name and its value.
pub type Header = (Seq<char>, Seq<char>);

/// How long a single export attempt may take, in milliseconds, when not overridden.
pub const DEFAULT_TIMEOUT_MS_EXPORT: u64 = 10000;

/// How often the worker exports, in milliseconds, when not overridden.
pub const DEFAULT_FLUSH_INTERVAL_MS: u64 = 5000;

/// How many records force an early export, when not overridden.
pub const DEFAULT_MAX_BATCH_SIZE: usize = 512;

/// How many records each buffer holds before discarding the oldest, when not overridden.
pub const DEFAULT_MAX_BUFFERED: usize = 8192;

/// The text of a list of headers.
pub open spec fn headers_view(h: Seq<(String, String)>) -> Seq<Header> {
    h.map_values(|e: (String, String)| (e.0@, e.1@))
}

/// The headers as a map from name to value; a later entry for a name wins.
pub open spec fn header_map(h: Seq<Header>) -> Map<Seq<char>, Seq<char>>
    decreases h.len(),
{
    if h.len() == 0 {
        Map::empty()
    } else {
        header_map(h.drop_last()).insert(h.last().0, h.last().1)
    }
}

/// No two headers share a name.
pub open spec fn distinct_names(h: Seq<Header>) -> bool {
    forall|i: int, j: int| 0 <= i < h.len() && 0 <= j < h.len() && i != j ==> #[trigger] h[i].0 != #[trigger] h[j].0
}

/// Replacing the value of a header whose name occurs once is inserting it into the map.
proof fn lemma_header_update(h: Seq<Header>, i: int, value: Seq<char>)
    requires
        distinct_names(h),
        0 <= i < h.len(),
    ensures
        header_map(h.update(i, (h[i].0, value))) == header_map(h).insert(h[i].0, value),
        distinct_names(h.update(i, (h[i].0, value))),
    decreases h.len(),
{
    let updated = h.update(i, (h[i].0, value));
    if i == h.len() - 1 {
        assert(updated.drop_last() =~= h.drop_last());
        assert(header_map(updated) =~= header_map(h).insert(h[i].0, value));
    } else {
        let init = h.drop_last();
        assert(distinct_names(init));
        lemma_header_update(init, i, value);
        assert(updated.drop_last() =~= init.update(i, (init[i].0, value)));
        assert(h.last().0 != h[i].0);
        assert(header_map(updated) =~= header_map(h).insert(h[i].0, value));
    }
}

/// Sets header `name` to `value`: an existing header of that name takes the new value, in place; otherwise the
/// header is added. A header set twice keeps its last value.
pub fn insert_header(headers: &mut Vec<(String, String)>, name: String, value: String)
    requires
        distinct_names(headers_view(old(headers)@)),
    ensures
        distinct_names(headers_view(final(headers)@)),
        header_map(headers_view(final(headers)@)) == header_map(headers_view(old(headers)@)).insert(name@, value@),
{
    let ghost before = headers_view(headers@);
    let mut i: usize = 0;
    while i < headers.len()
        invariant
            headers_view(headers@) == before,
            before == headers_view(old(headers)@),
            distinct_names(before),
            i <= before.len(),
            forall|k: int| 0 <= k < i ==> before[k].0 != name@,
        decreases before.len() - i,
    {
        if text_is(headers[i].0.as_str(), name.as_str()) {
            assert(before[i as int].0 == name@);
            proof {
                lemma_header_update(before, i as int, value@);
            }
            let ghost v = value@;
            headers.remove(i);
            headers.insert(i, (name, value));
            assert(headers_view(headers@) =~= before.update(i as int, (before[i as int].0, v)));
            return;
        }
        i += 1;
    }
    headers.push((name, value));
    assert(headers_view(headers@) =~= before.push((name@, value@)));
    assert(headers_view(headers@).drop_last() =~= before);
}

/// Whether `key` is one the module sets itself — `service.*`, `deployment.environment.name`, `telemetry.sdk.*`,
/// `machine.*`, `session.id` or `location.*` — and so may not be shadowed by a caller's resource attribute.
pub open spec fn is_reserved_key(key: Seq<char>) -> bool {
    ||| starts_with(key, "service."@)
    ||| key == "deployment.environment.name"@
    ||| starts_with(key, "telemetry.sdk."@)
    ||| starts_with(key, "machine."@)
    ||| key == "session.id"@
    ||| starts_with(key, "location."@)
}

/// Executable [`is_reserved_key`].
pub fn reserved_key(key: &str) -> (r: bool)
    ensures
        r == is_reserved_key(key@),
{
    let chars = crate::text::chars_of(key);
    let service = crate::text::chars_of("service.");
    let sdk = crate::text::chars_of("telemetry.sdk.");
    let machine = crate::text::chars_of("machine.");
    let location = crate::text::chars_of("location.");
    matches_at(chars.as_slice(), service.as_slice(), 0) || text_is(key, "deployment.environment.name")
        || matches_at(chars.as_slice(), sdk.as_slice(), 0) || matches_at(chars.as_slice(), machine.as_slice(), 0)
        || text_is(key, "session.id") || matches_at(chars.as_slice(), location.as_slice(), 0)
}

/// The keys of a set of fields.
pub open spec fn field_keys(fields: Seq<(String, Value)>) -> Seq<Seq<char>> {
    fields.map_values(|f: (String, Value)| f.0@)
}

/// The position of the first field keyed `key`, if any.
pub open spec fn key_position(keys: Seq<Seq<char>>, key: Seq<char>) -> Option<int>
    decreases keys.len(),
{
    if keys.len() == 0 {
        None
    } else {
        match key_position(keys.drop_last(), key) {
            Some(i) => Some(i),
            None => if keys.last() == key {
                Some(keys.len() - 1)
            } else {
                None
            },
        }
    }
}

/// A found position holds the key, and nothing before it does.
proof fn lemma_key_position(keys: Seq<Seq<char>>, key: Seq<char>)
    ensures
        key_position(keys, key) matches Some(i) ==> 0 <= i < keys.len() && keys[i] == key && forall|k: int|
            0 <= k < i ==> keys[k] != key,
        key_position(keys, key) is None ==> forall|k: int| 0 <= k < keys.len() ==> keys[k] != key,
    decreases keys.len(),
{
    if keys.len() > 0 {
        let init = keys.drop_last();
        lemma_key_position(init, key);
        assert forall|k: int| 0 <= k < init.len() implies init[k] == keys[k] by {}
    }
}

/// A finished configuration, ready to start telemetry with.
#[derive(Debug)]
pub struct Config {
    /// Base URL of the collector. The signal paths are appended to it.
    pub endpoint: String,
    /// Headers put on every export request, typically authentication; one per name.
    pub headers: Vec<(String, String)>,
    /// Reported as `service.name`, and used to scope the machine identifier.
    pub service_name: String,
    /// Reported as `service.version`.
    pub service_version: String,
    /// Reported as `deployment.environment.name`.
    pub environment: Environment,
    /// Resource attributes the caller added, reported after the built-in ones; one per key.
    pub resource: Fields,
    /// The lowest severity that is recorded.
    pub min_level: Level,
    /// How often the worker exports whatever has accumulated, in milliseconds.
    pub flush_interval_ms: u64,
    /// How many buffered records trigger an export before the interval elapses.
    pub max_batch_size: usize,
    /// How many records each buffer holds before discarding the oldest.
    pub max_buffered: usize,
    /// How long a single export attempt may take, in milliseconds.
    pub timeout_ms: u64,
    /// Whether to collect and export anything at all.
    pub enabled: bool,
    /// Whether to enrich records with an IP-based location lookup.
    pub geolocation: bool,
    /// Base URL of the geolocation service.
    pub geolocation_url: String,
    /// How long the geolocation lookup may take, in milliseconds.
    pub geolocation_timeout_ms: u64,
}

impl Config {
    /// The configuration keeps one header per name and one resource attribute per key.
    pub open spec fn wf(self) -> bool {
        &&& distinct_names(headers_view(self.headers@))
        &&& forall|i: int, j: int|
            0 <= i < self.resource@.len() && 0 <= j < self.resource@.len() && i != j ==> #[trigger] self.resource@[i].0@
                != #[trigger] self.resource@[j].0@
    }

    /// Starts configuring telemetry reporting to the collector at `endpoint`, with `headers` on every export
    /// request. Everything else takes its default: an empty service name and version, the development environment,
    /// `Info` and above, a five-second flush interval, batches of 512, 8192 buffered records, a ten-second export
    /// timeout, collection on, and geolocation off.
    pub fn builder(endpoint: &str, headers: &[(&str, &str)]) -> (b: ConfigBuilder)
        ensures
            b.config().wf(),
            b.config().endpoint@ == endpoint@,
            header_map(headers_view(b.config().headers@)) == header_map(
                headers@.map_values(|h: (&str, &str)| (h.0@, h.1@)),
            ),
            b.config().service_name@.len() == 0,
            b.config().service_version@.len() == 0,
            b.config().environment is Development,
            b.config().resource@.len() == 0,
            b.config().min_level == Level::Info,
            b.config().flush_interval_ms == DEFAULT_FLUSH_INTERVAL_MS,
            b.config().max_batch_size == DEFAULT_MAX_BATCH_SIZE,
            b.config().max_buffered == DEFAULT_MAX_BUFFERED,
            b.config().timeout_ms == DEFAULT_TIMEOUT_MS_EXPORT,
            b.config().enabled,
            !b.config().geolocation,
            b.config().geolocation_url@ == DEFAULT_URL@,
            b.config().geolocation_timeout_ms == DEFAULT_TIMEOUT_MS,
    {
        let mut list: Vec<(String, String)> = Vec::new();
        let ghost given = headers@.map_values(|h: (&str, &str)| (h.0@, h.1@));
        let mut i: usize = 0;
        assert(header_map(headers_view(list@)) =~= header_map(given.subrange(0, 0)));
        while i < headers.len()
            invariant
                i <= headers@.len(),
                given == headers@.map_values(|h: (&str, &str)| (h.0@, h.1@)),
                distinct_names(headers_view(list@)),
                header_map(headers_view(list@)) == header_map(given.subrange(0, i as int)),
            decreases headers@.len() - i,
        {
            let (name, value) = headers[i];
            insert_header(&mut list, name.to_owned(), value.to_owned());
            assert(given.subrange(0, i + 1).drop_last() =~= given.subrange(0, i as int));
            i += 1;
        }
        assert(given.subrange(0, headers@.len() as int) =~= given);
        ConfigBuilder {
            config: Config {
                endpoint: endpoint.to_owned(),
                headers: list,
                service_name: String::new(),
                service_version: String::new(),
                environment: Environment::Development,
                resource: Vec::new(),
                min_level: Level::Info,
                flush_interval_ms: DEFAULT_FLUSH_INTERVAL_MS,
                max_batch_size: DEFAULT_MAX_BATCH_SIZE,
                max_buffered: DEFAULT_MAX_BUFFERED,
                timeout_ms: DEFAULT_TIMEOUT_MS_EXPORT,
                enabled: true,
                geolocation: false,
                geolocation_url: DEFAULT_URL.to_owned(),
                geolocation_timeout_ms: DEFAULT_TIMEOUT_MS,
            },
        }
    }
}

/// A fluent, consuming builder for [`Config`], created by [`Config::builder`].
///
/// The two privacy switches — [`enabled`](ConfigBuilder::enabled) and [`geolocation`](ConfigBuilder::geolocation)
/// — are independent, and **both** must be on before any location lookup happens.
#[derive(Debug)]
pub struct ConfigBuilder {
    /// The configuration accumulated so far.
    config: Config,
}

impl ConfigBuilder {
    /// The configuration accumulated so far.
    pub closed spec fn config(self) -> Config {
        self.config
    }

    /// Sets the service name, reported as `service.name`; it also scopes the machine identifier.
    pub fn service_name(self, name: &str) -> (b: Self)
        requires
            self.config().wf(),
        ensures
            b.config().wf(),
            b.config() == (Config { service_name: b.config().service_name, ..self.config() }),
            b.config().service_name@ == name@,
    {
        let mut config = self.config;
        config.service_name = name.to_owned();
        ConfigBuilder { config }
    }

    /// Sets the application version, reported as `service.version`.
    pub fn service_version(self, version: &str) -> (b: Self)
        requires
            self.config().wf(),
        ensures
            b.config().wf(),
            b.config() == (Config { service_version: b.config().service_version, ..self.config() }),
            b.config().service_version@ == version@,
    {
        let mut config = self.config;
        config.service_version = version.to_owned();
        ConfigBuilder { config }
    }

    /// Sets the deployment environment.
    pub fn environment(self, environment: Environment) -> (b: Self)
        requires
            self.config().wf(),
        ensures
            b.config().wf(),
            b.config() == (Config { environment, ..self.config() }),
    {
        let mut config = self.config;
        config.environment = environment;
        ConfigBuilder { config }
    }

    /// Adds a resource attribute, reported on every batch next to `service.name` and the machine enrichment.
    ///
    /// A key the module sets itself (see [`is_reserved_key`]) is ignored rather than allowed to shadow it, and a
    /// key added twice keeps its last value, in the place it was first added.
    pub fn resource_attribute(self, key: &str, value: Value) -> (b: Self)
        requires
            self.config().wf(),
        ensures
            b.config().wf(),
            b.config() == (Config { resource: b.config().resource, ..self.config() }),
            is_reserved_key(key@) ==> b.config().resource == self.config().resource,
            !is_reserved_key(key@) ==> match key_position(field_keys(self.config().resource@), key@) {
                Some(i) => field_keys(b.config().resource@) == field_keys(self.config().resource@)
                    && b.config().resource@ == self.config().resource@.update(i, (b.config().resource@[i].0, value)),
                None => field_keys(b.config().resource@) == field_keys(self.config().resource@).push(key@)
                    && b.config().resource@.drop_last() == self.config().resource@ && b.config().resource@.last().1
                    == value,
            },
    {
        let mut config = self.config;
        if reserved_key(key) {
            return ConfigBuilder { config };
        }
        let ghost before = config.resource@;
        proof {
            lemma_key_position(field_keys(before), key@);
        }
        let mut i: usize = 0;
        while i < config.resource.len()
            invariant
                config == self.config(),
                self.config().wf(),
                config.resource@ == before,
                !is_reserved_key(key@),
                i <= before.len(),
                forall|k: int| 0 <= k < i ==> before[k].0@ != key@,
            decreases before.len() - i,
        {
            if text_is(config.resource[i].0.as_str(), key) {
                assert(field_keys(before)[i as int] == key@);
                proof {
                    lemma_key_position(field_keys(before), key@);
                }
                let (existing, _) = config.resource.remove(i);
                config.resource.insert(i, (existing, value));
                assert(field_keys(config.resource@) =~= field_keys(before));
                assert(config.resource@ =~= before.update(i as int, (config.resource@[i as int].0, value)));
                assert(forall|k: int| 0 <= k < before.len() ==> #[trigger] config.resource@[k].0@ == before[k].0@);
                return ConfigBuilder { config };
            }
            i += 1;
        }
        assert(forall|k: int| 0 <= k < before.len() ==> field_keys(before)[k] != key@);
        config.resource.push((key.to_owned(), value));
        assert(field_keys(config.resource@) =~= field_keys(before).push(key@));
        assert(config.resource@.drop_last() =~= before);
        ConfigBuilder { config }
    }

    /// Sets the lowest severity that is recorded.
    pub fn min_level(self, level: Level) -> (b: Self)
        requires
            self.config().wf(),
        ensures
            b.config().wf(),
            b.config() == (Config { min_level: level, ..self.config() }),
    {
        let mut config = self.config;
        config.min_level = level;
        ConfigBuilder { config }
    }

    /// Adds one more header to every export request; a header set twice keeps its last value. Invalid names or
    /// values are reported when telemetry starts, not here.
    pub fn header(self, name: &str, value: &str) -> (b: Self)
        requires
            self.config().wf(),
        ensures
            b.config().wf(),
            b.config() == (Config { headers: b.config().headers, ..self.config() }),
            header_map(headers_view(b.config().headers@)) == header_map(headers_view(self.config().headers@)).insert(
                name@,
                value@,
            ),
    {
        let mut config = self.config;
        insert_header(&mut config.headers, name.to_owned(), value.to_owned());
        ConfigBuilder { config }
    }

    /// Sets how often the worker exports whatever has accumulated, in milliseconds.
    pub fn flush_interval(self, interval_ms: u64) -> (b: Self)
        requires
            self.config().wf(),
        ensures
            b.config().wf(),
            b.config() == (Config { flush_interval_ms: interval_ms, ..self.config() }),
    {
        let mut config = self.config;
        config.flush_interval_ms = interval_ms;
        ConfigBuilder { config }
    }

    /// Sets how many buffered records trigger an export before the interval elapses.
    pub fn max_batch_size(self, size: usize) -> (b: Self)
        requires
            self.config().wf(),
        ensures
            b.config().wf(),
            b.config() == (Config { max_batch_size: size, ..self.config() }),
    {
        let mut config = self.config;
        config.max_batch_size = size;
        ConfigBuilder { config }
    }

    /// Sets how many records each buffer holds before discarding the oldest: the ceiling on what a stalled
    /// collector can cost in memory.
    pub fn max_buffered(self, records: usize) -> (b: Self)
        requires
            self.config().wf(),
        ensures
            b.config().wf(),
            b.config() == (Config { max_buffered: records, ..self.config() }),
    {
        let mut config = self.config;
        config.max_buffered = records;
        ConfigBuilder { config }
    }

    /// Sets how long a single export attempt may take, in milliseconds; it also bounds how long stopping telemetry
    /// can block.
    pub fn timeout(self, timeout_ms: u64) -> (b: Self)
        requires
            self.config().wf(),
        ensures
            b.config().wf(),
            b.config() == (Config { timeout_ms, ..self.config() }),
    {
        let mut config = self.config;
        config.timeout_ms = timeout_ms;
        ConfigBuilder { config }
    }

    /// Turns collection on or off. When off, nothing leaves the process: no worker, no lookup, and every record is
    /// discarded at the level gate.
    pub fn enabled(self, enabled: bool) -> (b: Self)
        requires
            self.config().wf(),
        ensures
            b.config().wf(),
            b.config() == (Config { enabled, ..self.config() }),
    {
        let mut config = self.config;
        config.enabled = enabled;
        ConfigBuilder { config }
    }

    /// Turns IP-based location enrichment on or off. Off by default: it discloses the machine's public IP address
    /// to a third party.
    pub fn geolocation(self, geolocation: bool) -> (b: Self)
        requires
            self.config().wf(),
        ensures
            b.config().wf(),
            b.config() == (Config { geolocation, ..self.config() }),
    {
        let mut config = self.config;
        config.geolocation = geolocation;
        ConfigBuilder { config }
    }

    /// Overrides the geolocation service.
    pub fn geolocation_url(self, base_url: &str) -> (b: Self)
        requires
            self.config().wf(),
        ensures
            b.config().wf(),
            b.config() == (Config { geolocation_url: b.config().geolocation_url, ..self.config() }),
            b.config().geolocation_url@ == base_url@,
    {
        let mut config = self.config;
        config.geolocation_url = base_url.to_owned();
        ConfigBuilder { config }
    }

    /// Sets how long the geolocation lookup may take, in milliseconds.
    pub fn geolocation_timeout(self, timeout_ms: u64) -> (b: Self)
        requires
            self.config().wf(),
        ensures
            b.config().wf(),
            b.config() == (Config { geolocation_timeout_ms: timeout_ms, ..self.config() }),
    {
        let mut config = self.config;
        config.geolocation_timeout_ms = timeout_ms;
        ConfigBuilder { config }
    }

    /// Finishes the configuration. Nothing is validated here; a bad endpoint or an unsendable header is reported
    /// when telemetry starts.
    pub fn build(self) -> (c: Config)
        requires
            self.config().wf(),
        ensures
            c == self.config(),
            c.wf(),
    {
        self.config
    }
}

} // verus!
