//! Typed metric instruments: counters and gauges, and the per-tag-set series they accumulate into.
//!
//! An instrument keeps its own totals; the exporter reads them on its own schedule through
//! [`Counter::snapshot`](counter::Counter::snapshot) and [`Gauge::snapshot`](gauge::Gauge::snapshot). Values are
//! reported **cumulatively**: a counter carries its running total since the process started, not the change since
//! the last export, so a dropped export loses nothing.

pub mod counter;
pub mod gauge;
pub mod histogram;
pub mod float_bits;
pub mod registry;
pub mod tags;

pub use counter::{Counter, counter};
pub use gauge::{Gauge, gauge};
pub use histogram::{Histogram, histogram};
