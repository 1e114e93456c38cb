//! The severity of a log record.

use vstd::prelude::*;

verus! {

/// The severity of a log record, and the threshold the level gate compares against.
///
/// Ordering follows severity: `Debug < Info < Warn < Error`, the order of the OTLP severity numbers.
#[derive(Debug, Clone, Copy, PartialEq, Eq, PartialOrd, Ord, Hash, Structural)]
pub enum Level {
    /// Detail useful while diagnosing a problem, too noisy to keep on by default.
    Debug,
    /// The default: something worth recording happened.
    Info,
    /// Something unexpected that the application recovered from.
    Warn,
    /// Something failed.
    Error,
}

/// The OTLP `severityNumber` of a level.
pub open spec fn severity(level: Level) -> u8 {
    match level {
        Level::Debug => 5,
        Level::Info => 9,
        Level::Warn => 13,
        Level::Error => 17,
    }
}

/// The OTLP `severityText` of a level.
pub open spec fn severity_label(level: Level) -> Seq<char> {
    match level {
        Level::Debug => "DEBUG"@,
        Level::Info => "INFO"@,
        Level::Warn => "WARN"@,
        Level::Error => "ERROR"@,
    }
}

impl Level {
    /// The OTLP `severityNumber` for this level.
    pub fn severity_number(self) -> (n: u8)
        ensures
            n == severity(self),
    {
        match self {
            Level::Debug => 5,
            Level::Info => 9,
            Level::Warn => 13,
            Level::Error => 17,
        }
    }

    /// The OTLP `severityText` for this level, which is also how it displays.
    pub fn severity_text(self) -> (s: &'static str)
        ensures
            s@ == severity_label(self),
    {
        match self {
            Level::Debug => "DEBUG",
            Level::Info => "INFO",
            Level::Warn => "WARN",
            Level::Error => "ERROR",
        }
    }
}

/// The severity numbers follow the order of the levels: each level's number is strictly above the one before it.
pub proof fn severity_follows_level_order()
    ensures
        severity(Level::Debug) < severity(Level::Info),
        severity(Level::Info) < severity(Level::Warn),
        severity(Level::Warn) < severity(Level::Error),
{
}

/// The short name OTLP gives the severity range a severity number falls in: `TRACE` for 1 to 4, `DEBUG` for 5 to 8,
/// `INFO` for 9 to 12, `WARN` for 13 to 16, `ERROR` for 17 to 20 and `FATAL` for 21 to 24; nothing outside them.
pub open spec fn otlp_range_name(n: int) -> Option<Seq<char>> {
    if 1 <= n <= 4 {
        Some("TRACE"@)
    } else if 5 <= n <= 8 {
        Some("DEBUG"@)
    } else if 9 <= n <= 12 {
        Some("INFO"@)
    } else if 13 <= n <= 16 {
        Some("WARN"@)
    } else if 17 <= n <= 20 {
        Some("ERROR"@)
    } else if 21 <= n <= 24 {
        Some("FATAL"@)
    } else {
        None
    }
}

/// A record's severity text and number agree, for every level: the text is the short name OTLP gives the range its
/// number falls in, and the number is the first of that range. Distinct levels get distinct texts and distinct
/// numbers.
pub proof fn severity_text_names_the_number_s_range(level: Level, other: Level)
    ensures
        otlp_range_name(severity(level) as int) == Some(severity_label(level)),
        (severity(level) - 1) % 4 == 0,
        level != other ==> severity_label(level) != severity_label(other) && severity(level) != severity(other),
{
    reveal_strlit("DEBUG");
    reveal_strlit("INFO");
    reveal_strlit("WARN");
    reveal_strlit("ERROR");
    if level != other {
        let a = severity_label(level);
        let b = severity_label(other);
        if a.len() == b.len() {
            assert(a[0] != b[0]);
        }
    }
}

} // verus!
