//! A fluent builder for a telemetry handle that exports logs to an OTLP collector.

use std::time::Duration;

use vstd::prelude::*;

use super::config::{Header, distinct_names, header_map, headers_view, insert_header};
use super::enrichment::{Attr, Enrichment, machine_arch_key, machine_id_key, machine_os_key};
use vstd::string::StringSliceAdditionalSpecFns;
use vstd::utf8::encode_utf8;
use super::environment::Environment;
use super::error::O11yError;
use super::geolocation::{DEFAULT_URL, trim_trailing_slashes, without_trailing_slashes};
use super::pipeline::{
    first_invalid_header, machine_id, scoped_machine_id, url_parse_error, url_rejection, validate_headers,
};
use crate::text::{chars_of, extend_chars, string_of};

verus! {

/// A fluent, consuming builder for a [`Telemetry`] handle.
///
/// Only the collector endpoint and the service name are required; everything else has a default. The two privacy
/// switches — [`enabled`](TelemetryBuilder::enabled) and [`geolocation`](TelemetryBuilder::geolocation) — are
/// independent, and **both** must be on before any location lookup happens.
#[derive(Debug)]
pub struct TelemetryBuilder {
    /// Base URL of the OTLP collector. `/v1/logs` is appended to it.
    endpoint: String,
    /// Reported as `service.name`, and used to scope the machine identifier.
    service_name: String,
    /// Reported as the `version` attribute on every record.
    version: String,
    /// Reported as `deployment.environment.name`.
    environment: Environment,
    /// Extra headers for the OTLP exporter, typically authentication; one per name.
    headers: Vec<(String, String)>,
    /// Whether to collect and export anything at all.
    enabled: bool,
    /// Whether to enrich records with an IP-based location lookup.
    geolocation: bool,
    /// Base URL of the geolocation service.
    geolocation_url: String,
    /// Export timeout. `None` leaves the exporter's own default in place.
    timeout: Option<Duration>,
}

/// What a builder holds.
pub struct BuilderView {
    /// The collector's base URL.
    pub endpoint: Seq<char>,
    /// The service name.
    pub service_name: Seq<char>,
    /// The application version.
    pub version: Seq<char>,
    /// The deployment environment.
    pub environment: Environment,
    /// The export headers, by name.
    pub headers: Map<Seq<char>, Seq<char>>,
    /// Whether collection is on.
    pub enabled: bool,
    /// Whether the location lookup is on.
    pub geolocation: bool,
    /// The geolocation service's base URL.
    pub geolocation_url: Seq<char>,
    /// The export timeout, if one was set.
    pub timeout: Option<Duration>,
}

impl View for TelemetryBuilder {
    type V = BuilderView;

    closed spec fn view(&self) -> BuilderView {
        BuilderView {
            endpoint: self.endpoint@,
            service_name: self.service_name@,
            version: self.version@,
            environment: self.environment,
            headers: header_map(headers_view(self.headers@)),
            enabled: self.enabled,
            geolocation: self.geolocation,
            geolocation_url: self.geolocation_url@,
            timeout: self.timeout,
        }
    }
}

/// The exporter a handle built with collection on sends through.
#[derive(Debug)]
pub struct Exporter {
    /// The full URL logs are posted to.
    pub logs_endpoint: String,
    /// The headers put on every request.
    pub headers: Vec<(String, String)>,
    /// The export timeout, if one was set.
    pub timeout: Option<Duration>,
    /// The service name reported as `service.name`.
    pub service_name: String,
    /// The deployment environment's name, reported as `deployment.environment.name`.
    pub environment: String,
}

/// A built telemetry handle: the enrichment, and — when collection is on — the exporter and the location lookup to
/// start.
#[derive(Debug)]
pub struct Telemetry {
    /// The locally gathered enrichment, present whether or not collection is on, since none of it leaves the
    /// process.
    pub enrichment: Enrichment,
    /// The exporter, or `None` when collection is off and everything is discarded.
    pub exporter: Option<Exporter>,
    /// The base URL of the location lookup to start in the background, when both switches are on.
    pub geolocation_url: Option<String>,
}

/// The full logs endpoint for a base URL: the base without trailing slashes, then `/v1/logs`. The exporter uses a
/// programmatically supplied endpoint verbatim, so the path has to be joined here.
pub open spec fn logs_address(base: Seq<char>) -> Seq<char> {
    without_trailing_slashes(base) + "/v1/logs"@
}

/// Appends the OTLP logs path to `base` and checks the result is a usable URL; a rejection names the base the
/// caller gave.
pub fn logs_endpoint(base: &str) -> (r: Result<String, O11yError>)
    ensures
        url_rejection(logs_address(base@)) is None ==> (r matches Ok(url) && url@ == logs_address(base@)),
        url_rejection(logs_address(base@)) matches Some(reason) ==> (r matches Err(
            O11yError::InvalidEndpoint { endpoint, reason: why },
        ) && endpoint@ == base@ && why@ == reason),
{
    let chars = chars_of(base);
    let mut out = trim_trailing_slashes(chars.as_slice());
    let path = chars_of("/v1/logs");
    extend_chars(&mut out, path.as_slice());
    let endpoint = string_of(out.as_slice());
    match url_parse_error(endpoint.as_str()) {
        None => Ok(endpoint),
        Some(reason) => Err(O11yError::InvalidEndpoint { endpoint: base.to_owned(), reason }),
    }
}

impl TelemetryBuilder {
    /// A builder for a collector at `endpoint`, reporting as `service_name`: no version, the development
    /// environment, no headers, collection on, geolocation off against the default service, and the exporter's own
    /// timeout.
    pub fn new(endpoint: &str, service_name: &str) -> (b: Self)
        ensures
            b.wf(),
            b@ == (BuilderView {
                endpoint: endpoint@,
                service_name: service_name@,
                version: Seq::empty(),
                environment: Environment::Development,
                headers: Map::empty(),
                enabled: true,
                geolocation: false,
                geolocation_url: DEFAULT_URL@,
                timeout: None,
            }),
    {
        let b = TelemetryBuilder {
            endpoint: endpoint.to_owned(),
            service_name: service_name.to_owned(),
            version: String::new(),
            environment: Environment::Development,
            headers: Vec::new(),
            enabled: true,
            geolocation: false,
            geolocation_url: DEFAULT_URL.to_owned(),
            timeout: None,
        };
        assert(b@.headers =~= Map::<Seq<char>, Seq<char>>::empty());
        b
    }

    /// The headers, in the order first set.
    pub closed spec fn header_entries(self) -> Seq<Header> {
        headers_view(self.headers@)
    }

    /// The headers hold each name at most once.
    pub closed spec fn wf(self) -> bool {
        distinct_names(headers_view(self.headers@))
    }

    /// Sets the application version reported with every record.
    pub fn version(self, version: &str) -> (b: Self)
        requires
            self.wf(),
        ensures
            b.wf(),
            b@ == (BuilderView { version: version@, ..self@ }),
    {
        let mut b = self;
        b.version = version.to_owned();
        b
    }

    /// Sets the deployment environment.
    pub fn environment(self, environment: Environment) -> (b: Self)
        requires
            self.wf(),
        ensures
            b.wf(),
            b@ == (BuilderView { environment, ..self@ }),
    {
        let mut b = self;
        b.environment = environment;
        b
    }

    /// Adds a single header to every export request; a header set twice keeps its last value. Invalid names or
    /// values are reported by [`build`](TelemetryBuilder::build), not here.
    pub fn header(self, key: &str, value: &str) -> (b: Self)
        requires
            self.wf(),
        ensures
            b.wf(),
            b@ == (BuilderView { headers: self@.headers.insert(key@, value@), ..self@ }),
    {
        let mut b = self;
        insert_header(&mut b.headers, key.to_owned(), value.to_owned());
        b
    }

    /// Adds several headers at once, in order, merged over any already set.
    pub fn headers(self, headers: &[(&str, &str)]) -> (b: Self)
        requires
            self.wf(),
        ensures
            b.wf(),
            b@ == (BuilderView {
                headers: merged(self@.headers, headers@.map_values(|h: (&str, &str)| (h.0@, h.1@))),
                ..self@
            }),
    {
        let ghost given = headers@.map_values(|h: (&str, &str)| (h.0@, h.1@));
        let mut b = self;
        let mut i: usize = 0;
        assert(merged(self@.headers, given.subrange(0, 0)) == self@.headers);
        while i < headers.len()
            invariant
                b.wf(),
                i <= headers@.len(),
                given == headers@.map_values(|h: (&str, &str)| (h.0@, h.1@)),
                b@ == (BuilderView { headers: merged(self@.headers, given.subrange(0, i as int)), ..self@ }),
            decreases headers@.len() - i,
        {
            let (key, value) = headers[i];
            insert_header(&mut b.headers, key.to_owned(), value.to_owned());
            assert(given.subrange(0, i + 1).drop_last() =~= given.subrange(0, i as int));
            i += 1;
        }
        assert(given.subrange(0, headers@.len() as int) =~= given);
        b
    }

    /// Turns collection on or off. When off, nothing leaves the process: no exporter, no location lookup, and
    /// every record is discarded, while the handle stays fully usable.
    pub fn enabled(self, enabled: bool) -> (b: Self)
        requires
            self.wf(),
        ensures
            b.wf(),
            b@ == (BuilderView { enabled, ..self@ }),
    {
        let mut b = self;
        b.enabled = enabled;
        b
    }

    /// Turns IP-based location enrichment on or off. Off by default: the lookup reveals the machine's public IP
    /// address to a third party.
    pub fn geolocation(self, geolocation: bool) -> (b: Self)
        requires
            self.wf(),
        ensures
            b.wf(),
            b@ == (BuilderView { geolocation, ..self@ }),
    {
        let mut b = self;
        b.geolocation = geolocation;
        b
    }

    /// Overrides the geolocation service; the lookup requests `<base_url>/json`.
    pub fn geolocation_url(self, base_url: &str) -> (b: Self)
        requires
            self.wf(),
        ensures
            b.wf(),
            b@ == (BuilderView { geolocation_url: base_url@, ..self@ }),
    {
        let mut b = self;
        b.geolocation_url = base_url.to_owned();
        b
    }

    /// Sets how long a single export attempt may take.
    pub fn timeout(self, timeout: Duration) -> (b: Self)
        requires
            self.wf(),
        ensures
            b.wf(),
            b@ == (BuilderView { timeout: Some(timeout), ..self@ }),
    {
        let mut b = self;
        b.timeout = Some(timeout);
        b
    }

    /// Builds the telemetry handle.
    ///
    /// The enrichment that can be read locally — the service-scoped machine id from `host_id` when the host's id
    /// could be read, `os`, `arch` and a fresh session — is gathered regardless of whether collection is on, since
    /// none of it leaves the process. With collection off that is all. With it on, every header must be sendable
    /// and the logs endpoint a valid URL; the location lookup is asked for only when it was opted into.
    pub fn build(self, host_id: Option<&str>, os: &str, arch: &str) -> (r: Result<Telemetry, O11yError>)
        requires
            self.wf(),
        ensures
            !self@.enabled ==> (r matches Ok(t) && t.exporter is None && t.geolocation_url is None),
            self@.enabled ==> (first_invalid_header(self.header_entries()) matches Some(name) ==> (
            r matches Err(O11yError::InvalidHeader { name: n }) && n@ == name)),
            self@.enabled && first_invalid_header(self.header_entries()) is None ==> (url_rejection(
                logs_address(self@.endpoint),
            ) matches Some(reason) ==> (r matches Err(O11yError::InvalidEndpoint { endpoint, reason: why })
                && endpoint@ == self@.endpoint && why@ == reason)),
            r matches Ok(t) ==> t.enrichment@.generation == 0 && t.enrichment@.base == (match host_id {
                Some(h) => seq![
                    (machine_id_key(), scoped_machine_id(h.spec_bytes(), encode_utf8(self@.service_name))),
                ],
                None => Seq::<Attr>::empty(),
            }) + seq![(machine_os_key(), os@), (machine_arch_key(), arch@)],
            self@.enabled && first_invalid_header(self.header_entries()) is None && url_rejection(
                logs_address(self@.endpoint),
            ) is None ==> (r matches Ok(t) && t.exporter matches Some(e) && e.logs_endpoint@ == logs_address(
                self@.endpoint,
            ) && header_map(headers_view(e.headers@)) == self@.headers && e.timeout == self@.timeout
                && e.service_name@ == self@.service_name && e.environment@ == self@.environment.text() && (
            self@.geolocation ==> (t.geolocation_url matches Some(u) && u@ == self@.geolocation_url)) && (
            !self@.geolocation ==> t.geolocation_url is None)),
    {
        let id = match host_id {
            Some(host) => Some(machine_id(host, self.service_name.as_str())),
            None => None,
        };
        let enrichment = match &id {
            Some(s) => Enrichment::new(Some(s.as_str()), os, arch),
            None => Enrichment::new(None, os, arch),
        };
        if !self.enabled {
            return Ok(Telemetry { enrichment, exporter: None, geolocation_url: None });
        }
        match validate_headers(&self.headers) {
            Some(name) => {
                return Err(O11yError::InvalidHeader { name });
            },
            None => {},
        }
        let logs_endpoint = match logs_endpoint(self.endpoint.as_str()) {
            Ok(url) => url,
            Err(error) => {
                return Err(error);
            },
        };
        let environment = self.environment.to_string();
        let geolocation_url = if self.geolocation {
            Some(self.geolocation_url)
        } else {
            None
        };
        let exporter = Exporter {
            logs_endpoint,
            headers: self.headers,
            timeout: self.timeout,
            service_name: self.service_name,
            environment,
        };
        Ok(Telemetry { enrichment, exporter: Some(exporter), geolocation_url })
    }
}

/// The headers after setting each of `added` in turn over `headers`.
pub open spec fn merged(headers: Map<Seq<char>, Seq<char>>, added: Seq<Header>) -> Map<Seq<char>, Seq<char>>
    decreases added.len(),
{
    if added.len() == 0 {
        headers
    } else {
        merged(headers, added.drop_last()).insert(added.last().0, added.last().1)
    }
}

} // verus!
