//! Which of the three telemetry streams a payload belongs to.

use vstd::prelude::*;

verus! {

/// Which of the three telemetry streams a payload belongs to. Each has its own OTLP path, buffer and request.
#[derive(Debug, Clone, Copy, PartialEq, Eq, Hash, Structural)]
pub enum Signal {
    /// Log records.
    Logs,
    /// Metric data points.
    Metrics,
    /// Trace spans.
    Traces,
}

impl Signal {
    /// The OTLP path this signal is posted to, appended to the configured endpoint.
    pub fn path(self) -> (p: &'static str)
        ensures
            p@ == (match self {
                Signal::Logs => "/v1/logs"@,
                Signal::Metrics => "/v1/metrics"@,
                Signal::Traces => "/v1/traces"@,
            }),
    {
        match self {
            Signal::Logs => "/v1/logs",
            Signal::Metrics => "/v1/metrics",
            Signal::Traces => "/v1/traces",
        }
    }

    /// The signal's name, which is how it displays.
    pub fn name(self) -> (p: &'static str)
        ensures
            p@ == (match self {
                Signal::Logs => "logs"@,
                Signal::Metrics => "metrics"@,
                Signal::Traces => "traces"@,
            }),
    {
        match self {
            Signal::Logs => "logs",
            Signal::Metrics => "metrics",
            Signal::Traces => "traces",
        }
    }
}

} // verus!
