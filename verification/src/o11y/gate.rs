//! The gates that decide whether anything is recorded at all.
//!
//! There are two, opened and closed together: a log record compares its severity against a threshold, while
//! opening a span is a plain yes or no. The application keeps one [`Gate`] for the process and consults it before
//! evaluating anything a record would carry.

use vstd::prelude::*;

use super::level::{severity, Level};

verus! {

/// The threshold no level reaches, which is where a closed gate sits.
pub const CLOSED: u8 = 255;

/// The two gates: the severity threshold for log records, and whether spans are recorded.
#[derive(Debug, Clone, Copy, PartialEq, Eq, Structural)]
pub struct Gate {
    /// The active threshold, as a severity number. Records at or above it are emitted.
    pub threshold: u8,
    /// Whether spans are being recorded.
    pub tracing: bool,
}

impl Gate {
    /// Both gates shut, as they are before telemetry starts: nothing passes.
    pub fn new() -> (g: Gate)
        ensures
            g.threshold == CLOSED,
            !g.tracing,
    {
        Gate { threshold: CLOSED, tracing: false }
    }

    /// Whether a record at `level` passes this gate.
    pub open spec fn admits(self, level: Level) -> bool {
        self.threshold <= severity(level)
    }

    /// Opens both gates, admitting log records at or above `min_level` and allowing spans to record.
    pub fn open(&mut self, min_level: Level)
        ensures
            final(self).threshold == severity(min_level),
            final(self).tracing,
    {
        self.threshold = min_level.severity_number();
        self.tracing = true;
    }

    /// Shuts both gates, so nothing new is recorded.
    pub fn close(&mut self)
        ensures
            final(self).threshold == CLOSED,
            !final(self).tracing,
    {
        self.threshold = CLOSED;
        self.tracing = false;
    }
}

/// Whether a record at `level` would be recorded.
pub fn enabled(gate: &Gate, level: Level) -> (r: bool)
    ensures
        r == gate.admits(level),
{
    gate.threshold <= level.severity_number()
}

/// Whether spans are being recorded.
pub fn tracing_enabled(gate: &Gate) -> (r: bool)
    ensures
        r == gate.tracing,
{
    gate.tracing
}

/// A `Gate` opened at `min_level` admits exactly the levels at or above it, in severity order, and spans
/// record; once closed, it admits nothing and spans do not record.
pub proof fn gate_admits_exactly_what_it_was_opened_for(gate: Gate, min_level: Level, level: Level)
    ensures
        gate.threshold == severity(min_level) ==> (gate.admits(level) <==> severity(min_level) <= severity(
            level,
        )),
        gate.threshold == CLOSED ==> !gate.admits(level),
{
}

} // verus!
