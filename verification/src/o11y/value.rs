//! The values attached to log fields, span attributes and events.

use vstd::prelude::*;

verus! {

/// A value attached to a log record field, a span attribute or an event.
///
/// A `Double` is carried as the bit pattern of its `f64` (as `f64::to_bits` gives it): nothing here does arithmetic
/// on it, and the bit pattern round-trips exactly through the application's conversions.
#[derive(Debug)]
pub enum Value {
    /// A boolean.
    Bool(bool),
    /// A signed 64-bit integer. All integer types convert into this.
    Int(i64),
    /// A double-precision float, as its bit pattern.
    Double(u64),
    /// A UTF-8 string.
    String(String),
    /// A raw byte array.
    Bytes(Vec<u8>),
    /// An ordered list of values.
    List(Vec<Value>),
    /// A set of named values, arbitrarily nested.
    Entries(Vec<(String, Value)>),
}

/// A set of key/value pairs attached to a log record, a span or a span event, in the order they were written.
pub type Fields = Vec<(String, Value)>;

/// The integer an unsigned value becomes: itself when it fits in an `i64`, else `i64::MAX`.
pub open spec fn saturated(value: u64) -> i64 {
    if value > i64::MAX as u64 {
        i64::MAX
    } else {
        value as i64
    }
}

impl Value {
    /// An unsigned integer as a value. OTLP has no unsigned integer type, so a value above `i64::MAX` saturates
    /// rather than wraps: a wrong-but-bounded number beats a negative one.
    pub fn from_u64(value: u64) -> (v: Value)
        ensures
            v == Value::Int(saturated(value)),
    {
        if value > i64::MAX as u64 {
            Value::Int(i64::MAX)
        } else {
            Value::Int(value as i64)
        }
    }

    /// A string value holding `text`.
    pub fn from_str(text: &str) -> (v: Value)
        ensures
            v matches Value::String(s) && s@ == text@,
    {
        Value::String(text.to_owned())
    }
}

} // verus!
