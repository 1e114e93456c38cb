//! How starting telemetry, or exporting it, can fail.

use vstd::prelude::*;

use super::signal::Signal;

verus! {

/// `reqwest::Error`, the failure of an HTTP request, carried through unopened.
#[verifier::external_type_specification]
#[verifier::external_body]
pub struct ExReqwestError(reqwest::Error);

/// `serde_json::Error`, a payload or response that was not the JSON expected, carried through unopened.
#[verifier::external_type_specification]
#[verifier::external_body]
pub struct ExJsonError(serde_json::Error);

/// A configuration or export failure.
///
/// [`AlreadyInitialized`](O11yError::AlreadyInitialized), [`InvalidEndpoint`](O11yError::InvalidEndpoint) and
/// [`InvalidHeader`](O11yError::InvalidHeader) come from starting telemetry, and mean it never started. The rest
/// are reported from the export thread, long after the call that produced the data returned. Recording telemetry
/// itself never fails.
#[derive(Debug)]
pub enum O11yError {
    /// Telemetry was started more than once in the same process; the first configuration stays in effect.
    AlreadyInitialized,
    /// The collector endpoint could not be parsed as a URL.
    InvalidEndpoint {
        /// The endpoint as supplied by the caller.
        endpoint: String,
        /// Why it was rejected.
        reason: String,
    },
    /// A header name or value was not valid for an HTTP request.
    InvalidHeader {
        /// The offending header name.
        name: String,
    },
    /// The collector answered, but with a status outside the 2xx range.
    ExportRejected {
        /// Which stream was rejected.
        signal: Signal,
        /// The HTTP status code returned.
        status: u16,
        /// The response body, truncated to something loggable.
        body: String,
    },
    /// Records were discarded because the buffer was full before the next flush.
    Dropped {
        /// Which stream overflowed.
        signal: Signal,
        /// How many records were discarded since the last report.
        count: u64,
    },
    /// The export request or the geolocation request failed outright.
    Http(reqwest::Error),
    /// Reading a response body failed.
    Io(std::io::Error),
    /// A payload could not be serialised, or a geolocation response was not the expected JSON.
    Json(serde_json::Error),
}

/// A convenience alias for results returned by this module.
pub type Result<T> = core::result::Result<T, O11yError>;

} // verus!
