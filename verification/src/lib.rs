//! Observability and hardware probes, with their logic verified.

pub mod o11y;
pub mod sysinfo;
pub mod text;
