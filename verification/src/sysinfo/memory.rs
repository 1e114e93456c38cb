//! The description of the machine's memory.

use vstd::prelude::*;

verus! {

/// The machine's memory, in bytes.
#[derive(Debug, Clone, Copy, PartialEq, Eq)]
pub struct MemoryInfo {
    /// Total physical RAM.
    pub total: u64,
    /// RAM available for reuse, which is not the same as free RAM: it includes reclaimable page cache.
    pub available: u64,
    /// Total swap space, `0` on a machine with none configured.
    pub swap_total: u64,
}

} // verus!
