//! GPU detection on Linux, through the DRM entries in `sysfs`.
//!
//! The kernel publishes one `cardN` directory per DRM device, with the PCI identity of the device behind it as small
//! text attribute files. Reading those files is the application's job; everything decided from their contents is
//! here.

use vstd::prelude::*;

use super::gpu::GpuInfo;
use super::pci_ids::{lookup_pci_ids, pci_lookup, Found};
use super::vendor::{gpu_from_driver, known_vendor, soc_driver, vendor_name};
use crate::text::{
    chars_of, copy_range, extend_chars, hex_fixed, hex_fixed_chars, matches_at, parse_unsigned,
    parse_unsigned_chars, starts_with, string_of, trim, trimmed,
};

verus! {

/// The path under which the kernel publishes one entry per DRM device.
pub const DRM_CLASS_DIR: &'static str = "/sys/class/drm";

/// The PCI base class that means "display controller".
pub const PCI_CLASS_DISPLAY: u32 = 0x03;

/// Whether a DRM entry name names a graphics card: `card` followed by at least one digit and nothing else.
///
/// Connectors (`card0-DP-1`), render nodes (`renderD128`) and the `version` file are not cards. The digits are not
/// range-checked, since the kernel hands out large minor numbers once the small ones are used up.
pub open spec fn card_name(name: Seq<char>) -> bool {
    &&& starts_with(name, "card"@)
    &&& name.len() > 4
    &&& forall|i: int| 4 <= i < name.len() ==> '0' <= #[trigger] name[i] <= '9'
}

/// Reports whether a `/sys/class/drm` entry names a graphics card.
pub fn is_card_name(name: &str) -> (r: bool)
    ensures
        r == card_name(name@),
{
    let s = chars_of(name);
    let prefix = chars_of("card");
    proof {
        reveal_strlit("card");
    }
    if !matches_at(&s, &prefix, 0) || s.len() == 4 {
        return false;
    }
    let mut i: usize = 4;
    while i < s.len()
        invariant
            4 <= i <= s@.len(),
            s@ == name@,
            forall|k: int| 4 <= k < i ==> '0' <= #[trigger] s@[k] <= '9',
        decreases s@.len() - i,
    {
        if !('0' <= s[i] && s[i] <= '9') {
            assert(!('0' <= s@[i as int] <= '9'));
            return false;
        }
        i += 1;
    }
    true
}

/// The text after a `0x` prefix on the trimmed `raw`, if it has one.
pub open spec fn after_0x(raw: Seq<char>) -> Option<Seq<char>> {
    let t = trim(raw);
    if starts_with(t, "0x"@) {
        Some(t.subrange(2, t.len() as int))
    } else {
        None
    }
}

/// The id a sysfs PCI id file holds, which the kernel writes as `0x%04x` and a newline.
pub open spec fn hex_id(raw: Seq<char>) -> Option<u16> {
    match after_0x(raw) {
        Some(digits) => match parse_unsigned(digits, 16, 0xffff) {
            Some(v) => Some(v as u16),
            None => None,
        },
        None => None,
    }
}

/// [`after_0x`], executable.
fn strip_0x(raw: &str) -> (r: Option<Vec<char>>)
    ensures
        r matches Some(d) ==> after_0x(raw@) == Some(d@),
        r is None ==> after_0x(raw@) is None,
{
    let chars = chars_of(raw);
    let t = trimmed(&chars);
    let prefix = chars_of("0x");
    proof {
        reveal_strlit("0x");
    }
    if matches_at(&t, &prefix, 0) {
        Some(copy_range(&t, 2, t.len()))
    } else {
        None
    }
}

/// Parses a sysfs PCI id file.
pub fn parse_hex_id(raw: &str) -> (r: Option<u16>)
    ensures
        r == hex_id(raw@),
{
    match strip_0x(raw) {
        Some(digits) => match parse_unsigned_chars(&digits, 16, 0xffff) {
            Some(v) => Some(v as u16),
            None => None,
        },
        None => None,
    }
}

/// The class code a sysfs `class` file holds, which the kernel writes as `0x%06x` and a newline: the prefix and all
/// six hex digits are required (no sign), so the unprefixed, unpadded form `uevent` uses cannot be mistaken for it.
pub open spec fn class_code(raw: Seq<char>) -> Option<u32> {
    match after_0x(raw) {
        Some(digits) => if digits.len() != 6 || digits[0] == '+' {
            None
        } else {
            match parse_unsigned(digits, 16, 0xffff_ffff) {
                Some(v) => Some(v as u32),
                None => None,
            }
        },
        None => None,
    }
}

/// Parses a sysfs `class` file.
pub fn parse_class(raw: &str) -> (r: Option<u32>)
    ensures
        r == class_code(raw@),
{
    match strip_0x(raw) {
        Some(digits) => {
            if digits.len() != 6 || digits[0] == '+' {
                return None;
            }
            match parse_unsigned_chars(&digits, 16, 0xffff_ffff) {
                Some(v) => Some(v as u32),
                None => None,
            }
        },
        None => None,
    }
}

/// Reports whether a PCI class code belongs to a display controller: its top byte is the display base class, and
/// every subclass counts.
pub fn is_display_class(class: u32) -> (r: bool)
    ensures
        r == (class >> 16u32 == PCI_CLASS_DISPLAY),
{
    class >> 16u32 == PCI_CLASS_DISPLAY
}

/// The byte count `mem_info_vram_total` holds, a plain decimal number; zero means the figure is unavailable.
pub open spec fn vram_bytes(raw: Seq<char>) -> Option<u64> {
    match parse_unsigned(trim(raw), 10, 0xffff_ffff_ffff_ffff) {
        Some(v) => if v > 0 {
            Some(v as u64)
        } else {
            None
        },
        None => None,
    }
}

/// Parses `mem_info_vram_total`, which `amdgpu` writes as a decimal byte count.
pub fn parse_vram(raw: &str) -> (r: Option<u64>)
    ensures
        r == vram_bytes(raw@),
{
    let chars = chars_of(raw);
    let t = trimmed(&chars);
    match parse_unsigned_chars(&t, 10, 0xffff_ffff_ffff_ffff) {
        Some(v) => if v > 0 {
            Some(v)
        } else {
            None
        },
        None => None,
    }
}

/// What one `/sys/class/drm/cardN` directory holds, as read from its `device/` attributes: each is `None` when the
/// file could not be read, and `driver` is the name of the driver the `device/driver` link points at.
#[derive(Debug, Clone, PartialEq, Eq)]
pub struct CardDir {
    /// `device/vendor`.
    pub vendor: Option<String>,
    /// `device/device`.
    pub device: Option<String>,
    /// `device/class`.
    pub class: Option<String>,
    /// `device/mem_info_vram_total`.
    pub vram: Option<String>,
    /// The bound driver's name.
    pub driver: Option<String>,
}

/// An attribute parsed by `parse`, when it was read at all.
pub open spec fn parsed_id(raw: Option<String>) -> Option<u16> {
    match raw {
        Some(text) => hex_id(text@),
        None => None,
    }
}

/// The name of a PCI GPU for which the database had no model name: the vendor and the device id, or both ids.
pub open spec fn fallback_name(vendor: Option<Seq<char>>, vendor_id: u16, device_id: u16) -> Seq<char> {
    match vendor {
        Some(v) => v + " Device "@ + hex_fixed(device_id as nat, 4),
        None => "Device "@ + hex_fixed(vendor_id as nat, 4) + ":"@ + hex_fixed(device_id as nat, 4),
    }
}

/// The adapter a card directory describes, as `(name, vendor, memory)`, or `None` if it is not a GPU.
///
/// A PCI device is one when its class marks it a display controller; one without a readable class is not trusted.
/// Its vendor is the short name for its id, or else the database's; its name is the database's, or else built from
/// the ids. A device with no PCI identity is a GPU only when its driver is on the SoC allowlist, and then has no
/// VRAM of its own.
pub open spec fn card_gpu(card: CardDir, pci_ids: Option<Seq<char>>) -> Option<(Seq<char>, Option<Seq<char>>, Option<u64>)> {
    match (parsed_id(card.vendor), parsed_id(card.device)) {
        (Some(vendor_id), Some(device_id)) => {
            let class = match card.class {
                Some(text) => class_code(text@),
                None => None,
            };
            match class {
                None => None,
                Some(c) => if c >> 16u32 != PCI_CLASS_DISPLAY {
                    None
                } else {
                    let names: Found = match pci_ids {
                        Some(text) => pci_lookup(text, vendor_id, device_id),
                        None => (None, None),
                    };
                    let vendor = match known_vendor(vendor_id) {
                        Some(v) => Some(v),
                        None => names.0,
                    };
                    let name = match names.1 {
                        Some(n) => n,
                        None => fallback_name(vendor, vendor_id, device_id),
                    };
                    let memory = match card.vram {
                        Some(text) => vram_bytes(text@),
                        None => None,
                    };
                    Some((name, vendor, memory))
                },
            }
        },
        _ => match card.driver {
            Some(driver) => match soc_driver(driver@) {
                Some((name, vendor)) => Some((name, Some(vendor), None)),
                None => None,
            },
            None => None,
        },
    }
}

/// An optional attribute, parsed as a PCI id.
fn id_of(raw: &Option<String>) -> (r: Option<u16>)
    ensures
        r == parsed_id(*raw),
{
    match raw {
        Some(text) => parse_hex_id(text.as_str()),
        None => None,
    }
}

/// Builds a [`GpuInfo`] from one card directory, or `None` if it is not a GPU. See [`card_gpu`].
///
/// `pci_ids` is the text of a `pci.ids` database, read once by the caller and shared across every card.
pub fn gpu_from_card_dir(card: &CardDir, pci_ids: Option<&str>) -> (r: Option<GpuInfo>)
    ensures
        match card_gpu(
            *card,
            match pci_ids {
                Some(t) => Some(t@),
                None => None,
            },
        ) {
            Some((name, vendor, memory)) => r matches Some(g) && g.describes(name, vendor, memory),
            None => r is None,
        },
{
    let vendor_id = id_of(&card.vendor);
    let device_id = id_of(&card.device);
    match (vendor_id, device_id) {
        (Some(vendor_id), Some(device_id)) => {
            let class = match &card.class {
                Some(text) => parse_class(text.as_str()),
                None => None,
            };
            let class = match class {
                Some(c) => c,
                None => {
                    return None;
                },
            };
            if !is_display_class(class) {
                return None;
            }
            let names = match pci_ids {
                Some(contents) => lookup_pci_ids(contents, vendor_id, device_id),
                None => super::pci_ids::PciNames { vendor: None, device: None },
            };
            let vendor: Option<String> = match vendor_name(vendor_id) {
                Some(v) => Some(v.to_owned()),
                None => names.vendor,
            };
            let name = match names.device {
                Some(n) => n,
                None => {
                    let mut out: Vec<char> = Vec::new();
                    match &vendor {
                        Some(v) => {
                            out = chars_of(v.as_str());
                            extend_chars(&mut out, &chars_of(" Device "));
                            extend_chars(&mut out, &hex_fixed_chars(device_id as u64, 4));
                        },
                        None => {
                            out = chars_of("Device ");
                            extend_chars(&mut out, &hex_fixed_chars(vendor_id as u64, 4));
                            extend_chars(&mut out, &chars_of(":"));
                            extend_chars(&mut out, &hex_fixed_chars(device_id as u64, 4));
                        },
                    }
                    string_of(&out)
                },
            };
            let memory = match &card.vram {
                Some(text) => parse_vram(text.as_str()),
                None => None,
            };
            Some(GpuInfo { name, vendor, memory })
        },
        _ => soc_gpu(&card.driver),
    }
}

/// Builds a [`GpuInfo`] for a GPU with no PCI identity, from the driver bound to it.
fn soc_gpu(driver: &Option<String>) -> (r: Option<GpuInfo>)
    ensures
        match *driver {
            Some(d) => match soc_driver(d@) {
                Some((name, vendor)) => r matches Some(g) && g.describes(name, Some(vendor), None),
                None => r is None,
            },
            None => r is None,
        },
{
    match driver {
        Some(d) => match gpu_from_driver(d.as_str()) {
            Some((name, vendor)) => Some(
                GpuInfo { name: name.to_owned(), vendor: Some(vendor.to_owned()), memory: None },
            ),
            None => None,
        },
        None => None,
    }
}

/// Whether `card` is a PCI display controller, of any subclass, whose ids read `vendor_id:device_id`.
pub open spec fn display_card(card: CardDir, vendor_id: u16, device_id: u16) -> bool {
    &&& parsed_id(card.vendor) == Some(vendor_id)
    &&& parsed_id(card.device) == Some(device_id)
    &&& card.class is Some
    &&& class_code(card.class->0@) matches Some(c) && c >> 16u32 == PCI_CLASS_DISPLAY
}

/// A display controller always becomes a GPU, named from its ids: its vendor is the module's short name for the
/// vendor id when there is one, and otherwise the name the `pci.ids` database gives that vendor (none without a
/// database); its name is the database's name for the device when there is one, and otherwise built from the vendor
/// and the ids; its memory is the VRAM figure the card reports, if any.
pub proof fn a_display_card_is_named_from_its_ids(
    card: CardDir,
    pci_ids: Option<Seq<char>>,
    vendor_id: u16,
    device_id: u16,
)
    requires
        display_card(card, vendor_id, device_id),
    ensures
        card_gpu(card, pci_ids) is Some,
        known_vendor(vendor_id) is Some ==> (card_gpu(card, pci_ids)->0).1 == known_vendor(vendor_id),
        known_vendor(vendor_id) is None && pci_ids is Some ==> (card_gpu(card, pci_ids)->0).1 == pci_lookup(
            pci_ids->0,
            vendor_id,
            device_id,
        ).0,
        known_vendor(vendor_id) is None && pci_ids is None ==> (card_gpu(card, pci_ids)->0).1 is None,
        pci_ids is Some && pci_lookup(pci_ids->0, vendor_id, device_id).1 is Some ==> (card_gpu(card, pci_ids)->0).0
            == pci_lookup(pci_ids->0, vendor_id, device_id).1->0,
        (pci_ids is None || pci_lookup(pci_ids->0, vendor_id, device_id).1 is None) ==> (card_gpu(card, pci_ids)->0).0
            == fallback_name((card_gpu(card, pci_ids)->0).1, vendor_id, device_id),
        (card_gpu(card, pci_ids)->0).2 == (match card.vram {
            Some(text) => vram_bytes(text@),
            None => None,
        }),
{
}

/// A PCI device whose ids read but whose class is not a display controller never becomes a GPU.
pub proof fn a_pci_device_of_another_class_is_no_gpu(card: CardDir, pci_ids: Option<Seq<char>>)
    requires
        parsed_id(card.vendor) is Some,
        parsed_id(card.device) is Some,
        card.class is None || class_code(card.class->0@) is None || class_code(card.class->0@)->0 >> 16u32
            != PCI_CLASS_DISPLAY,
    ensures
        card_gpu(card, pci_ids) is None,
{
}

} // verus!
