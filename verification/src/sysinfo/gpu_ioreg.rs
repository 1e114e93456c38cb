//! GPU detection on macOS, through the IORegistry: decoding the properties of an accelerator entry.
//!
//! Walking the registry is the application's job; the properties it reads are decoded here.

use vstd::prelude::*;
use vstd::utf8::{decode_utf8, valid_utf8};

use super::gpu::{nonzero, resolved_vendor, GpuInfo};
use crate::text::{chars_of, string_of, trim, trimmed, until_nul8, until_nul_u8};

verus! {

/// Decodes an IORegistry `vendor-id`, stored as little-endian bytes of which only the low two carry the PCI vendor.
pub fn vendor_id_from_bytes(bytes: &[u8]) -> (r: Option<u16>)
    ensures
        bytes@.len() < 2 ==> r is None,
        bytes@.len() >= 2 ==> r == Some((bytes@[0] + 256 * bytes@[1]) as u16),
{
    if bytes.len() < 2 {
        return None;
    }
    let low = bytes[0] as u16;
    let high = bytes[1] as u16;
    Some(low + 256 * high)
}

/// `std::str::from_utf8`: the text the bytes encode, when they are valid UTF-8.
#[verifier::external_body]
fn utf8_text(bytes: &[u8]) -> (r: Option<String>)
    ensures
        r is Some <==> valid_utf8(bytes@),
        r matches Some(s) ==> s@ == decode_utf8(bytes@),
{
    match std::str::from_utf8(bytes) {
        Ok(text) => Some(text.to_owned()),
        Err(_) => None,
    }
}

/// The string an `OSData` value holds: the UTF-8 before its NUL padding, trimmed, when that is valid and not blank.
pub open spec fn data_text(bytes: Seq<u8>) -> Option<Seq<char>> {
    let content = until_nul8(bytes);
    if !valid_utf8(content) {
        None
    } else {
        let text = trim(decode_utf8(content));
        if text.len() == 0 {
            None
        } else {
            Some(text)
        }
    }
}

/// Decodes a string stored in an `OSData` rather than an `OSString`, as Intel Macs record a GPU's `model`.
pub fn data_string(bytes: &[u8]) -> (r: Option<String>)
    ensures
        match data_text(bytes@) {
            Some(t) => r matches Some(s) && s@ == t,
            None => r is None,
        },
{
    let content = until_nul_u8(bytes);
    let text = match utf8_text(&content) {
        Some(t) => t,
        None => {
            return None;
        },
    };
    let chars = chars_of(text.as_str());
    let t = trimmed(&chars);
    if t.len() == 0 {
        None
    } else {
        Some(string_of(&t))
    }
}

/// Assembles a [`GpuInfo`] from the properties read off an accelerator entry or its parent; an entry with no model
/// name is dropped.
pub fn gpu_from_properties(model: Option<&str>, vendor_id: Option<u16>, vram: Option<u64>) -> (r: Option<GpuInfo>)
    ensures
        match model {
            Some(m) => (r is None <==> trim(m@).len() == 0) && (r matches Some(g) ==> g.describes(
                trim(m@),
                resolved_vendor(vendor_id, trim(m@)),
                nonzero(vram),
            )),
            None => r is None,
        },
{
    match model {
        Some(m) => GpuInfo::from_parts(m, vendor_id, vram),
        None => None,
    }
}

/// Converts a VRAM figure reported in mebibytes, as `VRAM,totalMB` is, into bytes.
pub fn vram_from_megabytes(megabytes: u64) -> (bytes: u64)
    requires
        megabytes * 1048576 <= u64::MAX,
    ensures
        bytes == megabytes * 1048576,
{
    megabytes * 1024 * 1024
}

} // verus!
