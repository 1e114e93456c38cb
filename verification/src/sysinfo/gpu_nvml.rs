//! NVIDIA GPU detection on Linux through NVML, for the machines `sysfs` cannot see an NVIDIA card on: decoding what
//! NVML reports, and the rule that merges it with what `sysfs` found.

use vstd::prelude::*;
use vstd::utf8::{decode_utf8, valid_utf8};

use super::gpu::{nonzero, view_opt, GpuInfo};
use crate::text::{chars_of, string_of, text_is, trim, trimmed, until_nul8, until_nul_u8};

verus! {

/// The vendor every adapter NVML reports belongs to, spelled as the PCI vendor table spells `0x10de`.
pub const NVIDIA: &'static str = "NVIDIA";

/// The text `String::from_utf8_lossy` makes of `bytes`.
pub uninterp spec fn utf8_lossy(bytes: Seq<u8>) -> Seq<char>;

/// `String::from_utf8_lossy`: the text the bytes encode, with invalid sequences replaced. On valid UTF-8 that is
/// exactly the decoded text; how an invalid sequence is replaced is not stated here.
#[verifier::external_body]
fn utf8_lossy_text(bytes: &[u8]) -> (s: String)
    ensures
        s@ == utf8_lossy(bytes@),
        valid_utf8(bytes@) ==> s@ == decode_utf8(bytes@),
{
    String::from_utf8_lossy(bytes).into_owned()
}

/// The device name `nvmlDeviceGetName` wrote into a fixed buffer: the text before the terminator, trimmed.
pub open spec fn device_text(buffer: Seq<u8>) -> Seq<char> {
    trim(utf8_lossy(until_nul8(buffer)))
}

/// Decodes the name `nvmlDeviceGetName` wrote into a fixed, NUL-terminated buffer.
pub fn device_name(buffer: &[u8]) -> (s: String)
    ensures
        s@ == device_text(buffer@),
{
    let content = until_nul_u8(buffer);
    let text = utf8_lossy_text(&content);
    let chars = chars_of(text.as_str());
    let t = trimmed(&chars);
    string_of(&t)
}

/// Assembles a [`GpuInfo`] from what NVML reported for one device. A nameless device is dropped; the vendor is
/// always NVIDIA; a zero framebuffer size becomes `None`.
pub fn gpu_from_device(name: &str, total_memory: Option<u64>) -> (r: Option<GpuInfo>)
    ensures
        r is None <==> trim(name@).len() == 0,
        r matches Some(g) ==> g.describes(trim(name@), Some(NVIDIA@), nonzero(total_memory)),
{
    let chars = chars_of(name);
    let t = trimmed(&chars);
    if t.len() == 0 {
        return None;
    }
    let memory = match total_memory {
        Some(bytes) => if bytes > 0 {
            Some(bytes)
        } else {
            None
        },
        None => None,
    };
    Some(GpuInfo { name: string_of(&t), vendor: Some(NVIDIA.to_owned()), memory })
}

/// Whether any of `gpus` is an NVIDIA adapter.
pub open spec fn has_nvidia(gpus: Seq<GpuInfo>) -> bool {
    exists|i: int| 0 <= i < gpus.len() && view_opt(#[trigger] gpus[i].vendor) == Some(NVIDIA@)
}

/// Adds the NVIDIA adapters `nvml` reports to the ones `sysfs` found, unless `sysfs` already found one.
///
/// `nvml` is only called when it is needed, so a machine whose NVIDIA cards are already under `/sys/class/drm`
/// never loads the library and never reports a card twice.
pub fn with_nvml_fallback<F: FnOnce() -> Vec<GpuInfo>>(sysfs: Vec<GpuInfo>, nvml: F) -> (r: Vec<GpuInfo>)
    requires
        nvml.requires(()),
    ensures
        has_nvidia(sysfs@) ==> r@ == sysfs@,
        !has_nvidia(sysfs@) ==> exists|more: Vec<GpuInfo>| nvml.ensures((), more) && r@ == sysfs@ + more@,
{
    let mut i: usize = 0;
    while i < sysfs.len()
        invariant
            i <= sysfs@.len(),
            forall|k: int| 0 <= k < i ==> view_opt(#[trigger] sysfs@[k].vendor) != Some(NVIDIA@),
        decreases sysfs@.len() - i,
    {
        let found = match &sysfs[i].vendor {
            Some(v) => text_is(v.as_str(), NVIDIA),
            None => false,
        };
        if found {
            assert(view_opt(sysfs@[i as int].vendor) == Some(NVIDIA@));
            return sysfs;
        }
        i += 1;
    }
    let more = nvml();
    let mut all = sysfs;
    let ghost before = all@;
    let mut extra = more;
    let ghost added = extra@;
    all.append(&mut extra);
    assert(all@ == before + added);
    all
}

} // verus!
