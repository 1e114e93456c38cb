//! GPU detection on Windows, through DXGI: decoding a `DXGI_ADAPTER_DESC1`.
//!
//! Enumerating the adapters is the application's job; the fields of each descriptor are decoded here.

use vstd::prelude::*;

use super::gpu::{nonzero, resolved_vendor, GpuInfo};
use super::vendor::{vendor_from_description_chars, vendor_name};
use crate::text::{chars_of, string_of, trim, trimmed, until_nul16, until_nul_u16};

verus! {

/// The `DXGI_ADAPTER_FLAG_SOFTWARE` bit, which marks the WARP software rasteriser rather than real hardware.
pub const ADAPTER_FLAG_SOFTWARE: u32 = 2;

/// UTF-16 decoding with every unpaired surrogate replaced by U+FFFD, which is what `String::from_utf16_lossy` does.
pub open spec fn decode_utf16_lossy(u: Seq<u16>) -> Seq<char>
    decreases u.len(),
{
    if u.len() == 0 {
        Seq::empty()
    } else if 0xd800 <= u[0] <= 0xdbff && u.len() >= 2 && 0xdc00 <= u[1] <= 0xdfff {
        seq![(0x10000 + (u[0] - 0xd800) * 0x400 + (u[1] - 0xdc00)) as char] + decode_utf16_lossy(
            u.subrange(2, u.len() as int),
        )
    } else if 0xd800 <= u[0] <= 0xdfff {
        seq!['\u{fffd}'] + decode_utf16_lossy(u.drop_first())
    } else {
        seq![u[0] as char] + decode_utf16_lossy(u.drop_first())
    }
}

/// `String::from_utf16_lossy`: the text UTF-16 `units` encode, with unpaired surrogates replaced.
#[verifier::external_body]
fn utf16_lossy(units: &[u16]) -> (s: String)
    ensures
        s@ == decode_utf16_lossy(units@),
{
    String::from_utf16_lossy(units)
}

/// The adapter name a `DXGI_ADAPTER_DESC1::Description` holds: the UTF-16 text before its terminator, trimmed.
pub open spec fn adapter_text(description: Seq<u16>) -> Seq<char> {
    trim(decode_utf16_lossy(until_nul16(description)))
}

/// Decodes a `DXGI_ADAPTER_DESC1::Description`, a fixed 128-unit buffer holding a NUL-terminated string; what
/// follows the terminator is padding and is not decoded. A buffer with no terminator is used whole.
pub fn adapter_name(description: &[u16]) -> (s: String)
    ensures
        s@ == adapter_text(description@),
{
    let units = until_nul_u16(description);
    let decoded = utf16_lossy(&units);
    let chars = chars_of(decoded.as_str());
    let t = trimmed(&chars);
    string_of(&t)
}

/// Reports whether an adapter's flags mark it the software rasteriser.
pub fn is_software_adapter(flags: u32) -> (r: bool)
    ensures
        r == (flags & ADAPTER_FLAG_SOFTWARE != 0),
{
    flags & ADAPTER_FLAG_SOFTWARE != 0
}

/// DXGI's 32-bit vendor id as a PCI vendor id: values above `0xffff` are ACPI ids no PCI table can resolve.
pub open spec fn pci_vendor(vendor_id: u32) -> Option<u16> {
    if vendor_id <= 0xffff {
        Some(vendor_id as u16)
    } else {
        None
    }
}

/// Assembles a [`GpuInfo`] from the fields of a `DXGI_ADAPTER_DESC1`.
///
/// An adapter with no description is dropped, and a zero `DedicatedVideoMemory`, which is what integrated graphics
/// report, becomes `None`.
pub fn gpu_from_adapter(description: &[u16], vendor_id: u32, dedicated_video_memory: u64) -> (r: Option<GpuInfo>)
    ensures
        r is None <==> adapter_text(description@).len() == 0,
        r matches Some(g) ==> g.describes(
            adapter_text(description@),
            resolved_vendor(pci_vendor(vendor_id), adapter_text(description@)),
            nonzero(Some(dedicated_video_memory)),
        ),
{
    let name = adapter_name(description);
    let chars = chars_of(name.as_str());
    if chars.len() == 0 {
        return None;
    }
    let known = if vendor_id <= 0xffff {
        vendor_name(vendor_id as u16)
    } else {
        None
    };
    let vendor = match known {
        Some(v) => Some(v),
        None => vendor_from_description_chars(&chars),
    };
    let vendor = match vendor {
        Some(v) => Some(v.to_owned()),
        None => None,
    };
    let memory = if dedicated_video_memory > 0 {
        Some(dedicated_video_memory)
    } else {
        None
    };
    Some(GpuInfo { name, vendor, memory })
}

} // verus!
