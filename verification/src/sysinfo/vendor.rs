//! Turning hardware identifiers into names.
//!
//! PCI devices report a numeric vendor id that has to become a readable name, and GPUs soldered into a
//! system-on-chip report no PCI identity at all and can only be recognised by the kernel driver that claimed them.

use vstd::prelude::*;

use crate::text::{ascii_lowercase, chars_of, contains, find, text_is, to_ascii_lowercase};

verus! {

/// The short vendor name for a PCI vendor id this module knows, deliberately shorter than `pci.ids` spells it.
pub open spec fn known_vendor(id: u16) -> Option<Seq<char>> {
    if id == 0x1002 {
        Some("AMD"@)
    } else if id == 0x106b {
        Some("Apple"@)
    } else if id == 0x10de {
        Some("NVIDIA"@)
    } else if id == 0x1234 {
        Some("QEMU"@)
    } else if id == 0x13b5 {
        Some("ARM"@)
    } else if id == 0x1414 {
        Some("Microsoft"@)
    } else if id == 0x14e4 {
        Some("Broadcom"@)
    } else if id == 0x15ad {
        Some("VMware"@)
    } else if id == 0x17cb {
        Some("Qualcomm"@)
    } else if id == 0x1af4 {
        Some("Red Hat"@)
    } else if id == 0x1b36 {
        Some("Red Hat"@)
    } else if id == 0x1de4 {
        Some("Raspberry Pi"@)
    } else if id == 0x5143 {
        Some("Qualcomm"@)
    } else if id == 0x8086 {
        Some("Intel"@)
    } else {
        None
    }
}

/// The view of an optional static string.
pub open spec fn view_static(o: Option<&'static str>) -> Option<Seq<char>> {
    match o {
        Some(s) => Some(s@),
        None => None,
    }
}

/// The canonical short name for a PCI vendor id, or `None` if it is not one this module knows.
pub fn vendor_name(id: u16) -> (r: Option<&'static str>)
    ensures
        view_static(r) == known_vendor(id),
{
    match id {
        0x1002 => Some("AMD"),
        0x106b => Some("Apple"),
        0x10de => Some("NVIDIA"),
        0x1234 => Some("QEMU"),
        0x13b5 => Some("ARM"),
        0x1414 => Some("Microsoft"),
        0x14e4 => Some("Broadcom"),
        0x15ad => Some("VMware"),
        0x17cb => Some("Qualcomm"),
        0x1af4 => Some("Red Hat"),
        0x1b36 => Some("Red Hat"),
        0x1de4 => Some("Raspberry Pi"),
        0x5143 => Some("Qualcomm"),
        0x8086 => Some("Intel"),
        _ => None,
    }
}

/// The vendor a lowercased marketing name identifies: the first of the known names it contains, in an order that
/// lets the more specific match win.
pub open spec fn description_vendor(lower: Seq<char>) -> Option<Seq<char>> {
    if contains(lower, "nvidia"@) {
        Some("NVIDIA"@)
    } else if contains(lower, "geforce"@) {
        Some("NVIDIA"@)
    } else if contains(lower, "quadro"@) {
        Some("NVIDIA"@)
    } else if contains(lower, "amd"@) {
        Some("AMD"@)
    } else if contains(lower, "radeon"@) {
        Some("AMD"@)
    } else if contains(lower, "ati "@) {
        Some("AMD"@)
    } else if contains(lower, "intel"@) {
        Some("Intel"@)
    } else if contains(lower, "apple"@) {
        Some("Apple"@)
    } else if contains(lower, "microsoft"@) {
        Some("Microsoft"@)
    } else if contains(lower, "vmware"@) {
        Some("VMware"@)
    } else if contains(lower, "virtio"@) {
        Some("Red Hat"@)
    } else if contains(lower, "qemu"@) {
        Some("QEMU"@)
    } else if contains(lower, "qualcomm"@) {
        Some("Qualcomm"@)
    } else if contains(lower, "adreno"@) {
        Some("Qualcomm"@)
    } else if contains(lower, "mali"@) {
        Some("ARM"@)
    } else if contains(lower, "videocore"@) {
        Some("Broadcom"@)
    } else {
        None
    }
}

/// Whether the lowercased description `lower` mentions `needle`.
fn mentions(lower: &[char], needle: &str) -> (r: bool)
    ensures
        r == contains(lower@, needle@),
{
    let n = chars_of(needle);
    find(lower, &n)
}

/// Infers a vendor from a marketing name, matching case-insensitively and by substring, for the platforms that
/// report a description but no usable vendor id.
pub fn vendor_from_description(description: &str) -> (r: Option<&'static str>)
    ensures
        view_static(r) == description_vendor(ascii_lowercase(description@)),
{
    let raw = chars_of(description);
    vendor_from_description_chars(&raw)
}

/// [`vendor_from_description`], on the characters of the description.
pub fn vendor_from_description_chars(description: &[char]) -> (r: Option<&'static str>)
    ensures
        view_static(r) == description_vendor(ascii_lowercase(description@)),
{
    let lower = to_ascii_lowercase(description);
    if mentions(&lower, "nvidia") {
        Some("NVIDIA")
    } else if mentions(&lower, "geforce") {
        Some("NVIDIA")
    } else if mentions(&lower, "quadro") {
        Some("NVIDIA")
    } else if mentions(&lower, "amd") {
        Some("AMD")
    } else if mentions(&lower, "radeon") {
        Some("AMD")
    } else if mentions(&lower, "ati ") {
        Some("AMD")
    } else if mentions(&lower, "intel") {
        Some("Intel")
    } else if mentions(&lower, "apple") {
        Some("Apple")
    } else if mentions(&lower, "microsoft") {
        Some("Microsoft")
    } else if mentions(&lower, "vmware") {
        Some("VMware")
    } else if mentions(&lower, "virtio") {
        Some("Red Hat")
    } else if mentions(&lower, "qemu") {
        Some("QEMU")
    } else if mentions(&lower, "qualcomm") {
        Some("Qualcomm")
    } else if mentions(&lower, "adreno") {
        Some("Qualcomm")
    } else if mentions(&lower, "mali") {
        Some("ARM")
    } else if mentions(&lower, "videocore") {
        Some("Broadcom")
    } else {
        None
    }
}

/// The name and vendor of the non-PCI GPU a DRM driver claims, for the drivers on the allowlist.
///
/// An allowlist rather than a denylist: framebuffer stubs such as `simpledrm`, virtual devices such as `vkms` and
/// USB display drivers all bind to a `cardN` entry with no PCI identity too, and none of them is a GPU.
pub open spec fn soc_driver(driver: Seq<char>) -> Option<(Seq<char>, Seq<char>)> {
    if driver == "asahi"@ {
        Some(("Apple GPU"@, "Apple"@))
    } else if driver == "lima"@ {
        Some(("Mali GPU"@, "ARM"@))
    } else if driver == "msm"@ {
        Some(("Adreno GPU"@, "Qualcomm"@))
    } else if driver == "panfrost"@ {
        Some(("Mali GPU"@, "ARM"@))
    } else if driver == "panthor"@ {
        Some(("Mali GPU"@, "ARM"@))
    } else if driver == "v3d"@ {
        Some(("VideoCore GPU"@, "Broadcom"@))
    } else if driver == "vc4"@ {
        Some(("VideoCore GPU"@, "Broadcom"@))
    } else {
        None
    }
}

/// The view of an optional pair of static strings.
pub open spec fn view_pair(o: Option<(&'static str, &'static str)>) -> Option<(Seq<char>, Seq<char>)> {
    match o {
        Some((a, b)) => Some((a@, b@)),
        None => None,
    }
}

/// The name and vendor of a non-PCI SoC GPU, identified by the DRM driver bound to it, or `None` for every driver
/// not on the allowlist.
pub fn gpu_from_driver(driver: &str) -> (r: Option<(&'static str, &'static str)>)
    ensures
        view_pair(r) == soc_driver(driver@),
{
    if text_is(driver, "asahi") {
        Some(("Apple GPU", "Apple"))
    } else if text_is(driver, "lima") {
        Some(("Mali GPU", "ARM"))
    } else if text_is(driver, "msm") {
        Some(("Adreno GPU", "Qualcomm"))
    } else if text_is(driver, "panfrost") {
        Some(("Mali GPU", "ARM"))
    } else if text_is(driver, "panthor") {
        Some(("Mali GPU", "ARM"))
    } else if text_is(driver, "v3d") {
        Some(("VideoCore GPU", "Broadcom"))
    } else if text_is(driver, "vc4") {
        Some(("VideoCore GPU", "Broadcom"))
    } else {
        None
    }
}

/// The vendors this module names by PCI vendor id, with the short name each is given.
pub open spec fn vendor_table() -> Seq<(u16, Seq<char>)> {
    seq![
        (0x1002u16, "AMD"@),
        (0x106bu16, "Apple"@),
        (0x10deu16, "NVIDIA"@),
        (0x1234u16, "QEMU"@),
        (0x13b5u16, "ARM"@),
        (0x1414u16, "Microsoft"@),
        (0x14e4u16, "Broadcom"@),
        (0x15adu16, "VMware"@),
        (0x17cbu16, "Qualcomm"@),
        (0x1af4u16, "Red Hat"@),
        (0x1b36u16, "Red Hat"@),
        (0x1de4u16, "Raspberry Pi"@),
        (0x5143u16, "Qualcomm"@),
        (0x8086u16, "Intel"@),
    ]
}

/// Every vendor id of the table is named with its short name, and every id outside it is not named at all.
pub proof fn vendor_names_follow_the_table(id: u16)
    ensures
        forall|i: int| 0 <= i < vendor_table().len() ==> known_vendor(#[trigger] vendor_table()[i].0) == Some(
            vendor_table()[i].1,
        ),
        (forall|i: int| 0 <= i < vendor_table().len() ==> #[trigger] vendor_table()[i].0 != id) ==> known_vendor(id)
            is None,
        known_vendor(id) is Some ==> exists|i: int|
            0 <= i < vendor_table().len() && #[trigger] vendor_table()[i] == (id, known_vendor(id)->0),
{
    let t = vendor_table();
    assert(t[0] == (0x1002u16, "AMD"@));
    assert(t[1] == (0x106bu16, "Apple"@));
    assert(t[2] == (0x10deu16, "NVIDIA"@));
    assert(t[3] == (0x1234u16, "QEMU"@));
    assert(t[4] == (0x13b5u16, "ARM"@));
    assert(t[5] == (0x1414u16, "Microsoft"@));
    assert(t[6] == (0x14e4u16, "Broadcom"@));
    assert(t[7] == (0x15adu16, "VMware"@));
    assert(t[8] == (0x17cbu16, "Qualcomm"@));
    assert(t[9] == (0x1af4u16, "Red Hat"@));
    assert(t[10] == (0x1b36u16, "Red Hat"@));
    assert(t[11] == (0x1de4u16, "Raspberry Pi"@));
    assert(t[12] == (0x5143u16, "Qualcomm"@));
    assert(t[13] == (0x8086u16, "Intel"@));
    if forall|i: int| 0 <= i < vendor_table().len() ==> #[trigger] vendor_table()[i].0 != id {
        assert(t[0].0 != id && t[1].0 != id && t[2].0 != id && t[3].0 != id && t[4].0 != id && t[5].0 != id);
        assert(t[6].0 != id && t[7].0 != id && t[8].0 != id && t[9].0 != id && t[10].0 != id && t[11].0 != id);
        assert(t[12].0 != id && t[13].0 != id);
    }
}

/// The kernel drivers of system-on-chip GPUs this module recognises, with the name and vendor each GPU is given.
pub open spec fn soc_driver_table() -> Seq<(Seq<char>, (Seq<char>, Seq<char>))> {
    seq![
        ("asahi"@, ("Apple GPU"@, "Apple"@)),
        ("lima"@, ("Mali GPU"@, "ARM"@)),
        ("msm"@, ("Adreno GPU"@, "Qualcomm"@)),
        ("panfrost"@, ("Mali GPU"@, "ARM"@)),
        ("panthor"@, ("Mali GPU"@, "ARM"@)),
        ("v3d"@, ("VideoCore GPU"@, "Broadcom"@)),
        ("vc4"@, ("VideoCore GPU"@, "Broadcom"@)),
    ]
}

/// Every driver of the table yields its GPU's name and vendor, and any other driver yields nothing.
pub proof fn soc_drivers_follow_the_table(driver: Seq<char>)
    ensures
        forall|i: int| 0 <= i < soc_driver_table().len() ==> soc_driver(#[trigger] soc_driver_table()[i].0) == Some(
            soc_driver_table()[i].1,
        ),
        (forall|i: int| 0 <= i < soc_driver_table().len() ==> #[trigger] soc_driver_table()[i].0 != driver)
            ==> soc_driver(driver) is None,
{
    reveal_strlit("asahi");
    reveal_strlit("lima");
    reveal_strlit("msm");
    reveal_strlit("panfrost");
    reveal_strlit("panthor");
    reveal_strlit("v3d");
    reveal_strlit("vc4");
    let t = soc_driver_table();
    assert(t[0].0 == "asahi"@ && t[1].0 == "lima"@ && t[2].0 == "msm"@ && t[3].0 == "panfrost"@);
    assert(t[4].0 == "panthor"@ && t[5].0 == "v3d"@ && t[6].0 == "vc4"@);
    assert("lima"@ != "asahi"@ && "msm"@ != "asahi"@ && "msm"@ != "lima"@);
    assert("panfrost"@ != "asahi"@ && "panfrost"@ != "lima"@ && "panfrost"@ != "msm"@);
    assert("panthor"@ != "asahi"@ && "panthor"@ != "lima"@ && "panthor"@ != "msm"@) by {
        assert("panthor"@[0] != "asahi"@[0]);
    }
    assert("panthor"@ != "panfrost"@) by {
        assert("panthor"@.len() != "panfrost"@.len());
    }
    assert("v3d"@ != "asahi"@ && "v3d"@ != "lima"@ && "v3d"@ != "msm"@ && "v3d"@ != "panfrost"@ && "v3d"@
        != "panthor"@) by {
        assert("v3d"@[0] != "msm"@[0]);
    }
    assert("vc4"@ != "asahi"@ && "vc4"@ != "lima"@ && "vc4"@ != "msm"@ && "vc4"@ != "panfrost"@ && "vc4"@
        != "panthor"@ && "vc4"@ != "v3d"@) by {
        assert("vc4"@[0] != "msm"@[0]);
        assert("vc4"@[1] != "v3d"@[1]);
    }
    if forall|i: int| 0 <= i < soc_driver_table().len() ==> #[trigger] soc_driver_table()[i].0 != driver {
        assert(t[0].0 != driver && t[1].0 != driver && t[2].0 != driver && t[3].0 != driver);
        assert(t[4].0 != driver && t[5].0 != driver && t[6].0 != driver);
    }
}

/// The words a lowercased marketing name is searched for, most specific first, with the vendor each identifies.
pub open spec fn description_table() -> Seq<(Seq<char>, Seq<char>)> {
    seq![
        ("nvidia"@, "NVIDIA"@),
        ("geforce"@, "NVIDIA"@),
        ("quadro"@, "NVIDIA"@),
        ("amd"@, "AMD"@),
        ("radeon"@, "AMD"@),
        ("ati "@, "AMD"@),
        ("intel"@, "Intel"@),
        ("apple"@, "Apple"@),
        ("microsoft"@, "Microsoft"@),
        ("vmware"@, "VMware"@),
        ("virtio"@, "Red Hat"@),
        ("qemu"@, "QEMU"@),
        ("qualcomm"@, "Qualcomm"@),
        ("adreno"@, "Qualcomm"@),
        ("mali"@, "ARM"@),
        ("videocore"@, "Broadcom"@),
    ]
}

/// A marketing name identifies the vendor of the first word of the table it contains, and no vendor when it
/// contains none of them.
pub proof fn description_vendors_follow_the_table(lower: Seq<char>)
    ensures
        forall|i: int|
            0 <= i < description_table().len() && contains(lower, (#[trigger] description_table()[i]).0) && (forall|k: int|
                0 <= k < i ==> !contains(lower, (#[trigger] description_table()[k]).0)) ==> description_vendor(lower)
                == Some(description_table()[i].1),
        (forall|i: int| 0 <= i < description_table().len() ==> !contains(lower, (#[trigger] description_table()[i]).0))
            ==> description_vendor(lower) is None,
{
    let t = description_table();
    assert(t[0] == ("nvidia"@, "NVIDIA"@));
    assert(t[1] == ("geforce"@, "NVIDIA"@));
    assert(t[2] == ("quadro"@, "NVIDIA"@));
    assert(t[3] == ("amd"@, "AMD"@));
    assert(t[4] == ("radeon"@, "AMD"@));
    assert(t[5] == ("ati "@, "AMD"@));
    assert(t[6] == ("intel"@, "Intel"@));
    assert(t[7] == ("apple"@, "Apple"@));
    assert(t[8] == ("microsoft"@, "Microsoft"@));
    assert(t[9] == ("vmware"@, "VMware"@));
    assert(t[10] == ("virtio"@, "Red Hat"@));
    assert(t[11] == ("qemu"@, "QEMU"@));
    assert(t[12] == ("qualcomm"@, "Qualcomm"@));
    assert(t[13] == ("adreno"@, "Qualcomm"@));
    assert(t[14] == ("mali"@, "ARM"@));
    assert(t[15] == ("videocore"@, "Broadcom"@));
    assert forall|i: int|
        0 <= i < t.len() && contains(lower, (#[trigger] t[i]).0) && (forall|k: int|
            0 <= k < i ==> !contains(lower, (#[trigger] t[k]).0)) implies description_vendor(lower) == Some(t[i].1) by {
        if i > 0 { assert(!contains(lower, t[0].0)); }
        if i > 1 { assert(!contains(lower, t[1].0)); }
        if i > 2 { assert(!contains(lower, t[2].0)); }
        if i > 3 { assert(!contains(lower, t[3].0)); }
        if i > 4 { assert(!contains(lower, t[4].0)); }
        if i > 5 { assert(!contains(lower, t[5].0)); }
        if i > 6 { assert(!contains(lower, t[6].0)); }
        if i > 7 { assert(!contains(lower, t[7].0)); }
        if i > 8 { assert(!contains(lower, t[8].0)); }
        if i > 9 { assert(!contains(lower, t[9].0)); }
        if i > 10 { assert(!contains(lower, t[10].0)); }
        if i > 11 { assert(!contains(lower, t[11].0)); }
        if i > 12 { assert(!contains(lower, t[12].0)); }
        if i > 13 { assert(!contains(lower, t[13].0)); }
        if i > 14 { assert(!contains(lower, t[14].0)); }
    }
    if forall|i: int| 0 <= i < t.len() ==> !contains(lower, (#[trigger] t[i]).0) {
        assert(!contains(lower, t[0].0) && !contains(lower, t[1].0) && !contains(lower, t[2].0) && !contains(lower, t[3].0) && !contains(lower, t[4].0) && !contains(lower, t[5].0) && !contains(lower, t[6].0) && !contains(lower, t[7].0) && !contains(lower, t[8].0) && !contains(lower, t[9].0) && !contains(lower, t[10].0) && !contains(lower, t[11].0) && !contains(lower, t[12].0) && !contains(lower, t[13].0) && !contains(lower, t[14].0) && !contains(lower, t[15].0));
    }
}

} // verus!
