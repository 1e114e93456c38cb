//! The description of one graphics adapter, and the conventions every backend builds it by.

use vstd::prelude::*;

use super::vendor::{description_vendor, known_vendor, vendor_from_description_chars, vendor_name};
use crate::text::{ascii_lowercase, chars_of, string_of, trim, trimmed};

verus! {

/// A graphics adapter detected on this machine.
///
/// Both optional fields distinguish "the platform says this does not apply" from a zero: an Apple Silicon GPU has
/// no VRAM of its own because memory is unified, which is not the same as having none.
#[derive(Debug, Clone, PartialEq, Eq)]
pub struct GpuInfo {
    /// The adapter's model name, e.g. `"Apple M2 Max"` or `"NVIDIA GeForce RTX 3090"`.
    pub name: String,
    /// The canonical vendor name, e.g. `"NVIDIA"`, `"AMD"`, `"Intel"` or `"Apple"`, when it could be identified.
    pub vendor: Option<String>,
    /// Dedicated video memory in bytes, or `None` when the platform does not expose it. Never `Some(0)`.
    pub memory: Option<u64>,
}

/// The view of an optional owned string.
pub open spec fn view_opt(o: Option<String>) -> Option<Seq<char>> {
    match o {
        Some(s) => Some(s@),
        None => None,
    }
}

/// A memory figure with zero read as "not reported".
pub open spec fn nonzero(memory: Option<u64>) -> Option<u64> {
    match memory {
        Some(bytes) => if bytes > 0 {
            Some(bytes)
        } else {
            None
        },
        None => None,
    }
}

/// The vendor of an adapter named `name`: the one its numeric PCI id names, or else the one its name mentions.
pub open spec fn resolved_vendor(vendor_id: Option<u16>, name: Seq<char>) -> Option<Seq<char>> {
    match vendor_id {
        Some(id) => match known_vendor(id) {
            Some(v) => Some(v),
            None => description_vendor(ascii_lowercase(name)),
        },
        None => description_vendor(ascii_lowercase(name)),
    }
}

impl GpuInfo {
    /// Whether this adapter is the one named `name`, of `vendor`, with `memory` bytes of VRAM.
    pub open spec fn describes(self, name: Seq<char>, vendor: Option<Seq<char>>, memory: Option<u64>) -> bool {
        &&& self.name@ == name
        &&& view_opt(self.vendor) == vendor
        &&& self.memory == memory
    }

    /// Builds an adapter from what a platform backend decoded.
    ///
    /// A blank name drops the adapter, since one that cannot be named is not worth reporting. The vendor comes from
    /// the PCI id first and falls back to the model string. A zero memory figure becomes `None`.
    pub fn from_parts(name: &str, vendor_id: Option<u16>, memory: Option<u64>) -> (r: Option<GpuInfo>)
        ensures
            r is None <==> trim(name@).len() == 0,
            r matches Some(g) ==> g.describes(
                trim(name@),
                resolved_vendor(vendor_id, trim(name@)),
                nonzero(memory),
            ),
    {
        let raw = chars_of(name);
        let name = trimmed(&raw);
        if name.len() == 0 {
            return None;
        }
        let known = match vendor_id {
            Some(id) => vendor_name(id),
            None => None,
        };
        let vendor = match known {
            Some(v) => Some(v),
            None => vendor_from_description_chars(&name),
        };
        let vendor = match vendor {
            Some(v) => Some(v.to_owned()),
            None => None,
        };
        let memory = match memory {
            Some(bytes) => if bytes > 0 {
                Some(bytes)
            } else {
                None
            },
            None => None,
        };
        Some(GpuInfo { name: string_of(&name), vendor, memory })
    }
}

} // verus!
