use rust_sak::sysinfo::SysinfoError;
use rust_sak::sysinfo::gpu::GpuInfo;
use rust_sak::sysinfo::gpu_drm::gpus_from_cards;
use rust_sak::sysinfo::gpu_dxgi::{adapter_name, gpu_from_adapter, is_software_adapter};
use rust_sak::sysinfo::gpu_ioreg::{data_string, gpu_from_properties, vendor_id_from_bytes, vram_from_megabytes};
use rust_sak::sysinfo::gpu_nvml::{device_name, gpu_from_device, with_nvml_fallback};
use rust_sak::sysinfo::gpu_sysfs::{
    CardDir, gpu_from_card_dir, is_card_name, is_display_class, parse_class, parse_hex_id, parse_vram,
};
use rust_sak::sysinfo::pci_ids::{PciNames, lookup_pci_ids};
use rust_sak::sysinfo::vendor::{gpu_from_driver, vendor_from_description, vendor_name};
use rust_sak::sysinfo::webgpu::{DEVICE_TYPE_CPU, VULKAN_1_1, supports_webgpu};

// --- vendor tests ---

#[test]
fn vendor_name_resolves_the_well_known_graphics_vendors() {
    assert_eq!(vendor_name(0x10de), Some("NVIDIA"));
    assert_eq!(vendor_name(0x1002), Some("AMD"));
    assert_eq!(vendor_name(0x8086), Some("Intel"));
    assert_eq!(vendor_name(0x106b), Some("Apple"));
}

#[test]
fn vendor_name_does_not_resolve_the_amd_cpu_vendor_id() {
    // 0x1022 is AMD's CPU and chipset id; their GPUs are 0x1002.
    assert_eq!(vendor_name(0x1022), None);
}

#[test]
fn vendor_name_returns_none_for_an_unknown_id() {
    assert_eq!(vendor_name(0xffff), None);
}

#[test]
fn vendor_from_description_matches_case_insensitively() {
    assert_eq!(vendor_from_description("NVIDIA GeForce RTX 3090"), Some("NVIDIA"));
    assert_eq!(vendor_from_description("Intel(R) Arc(TM) A770 Graphics"), Some("Intel"));
    assert_eq!(vendor_from_description("AMD Radeon Pro 5500M"), Some("AMD"));
    assert_eq!(vendor_from_description("apple m2 max"), Some("Apple"));
}

#[test]
fn vendor_from_description_returns_none_for_an_unrecognisable_name() {
    assert_eq!(vendor_from_description("Generic Display Adapter"), None);
}

#[test]
fn gpu_from_driver_accepts_the_known_soc_drivers() {
    assert_eq!(gpu_from_driver("panfrost"), Some(("Mali GPU", "ARM")));
    assert_eq!(gpu_from_driver("vc4"), Some(("VideoCore GPU", "Broadcom")));
    assert_eq!(gpu_from_driver("asahi"), Some(("Apple GPU", "Apple")));
}

#[test]
fn gpu_from_driver_rejects_framebuffer_stubs_and_virtual_devices() {
    // These bind to a `cardN` entry that carries no PCI identity, so only the allowlist keeps them from being
    // reported as GPUs.
    for driver in ["simpledrm", "vkms", "udl", "evdi", "ofdrm"] {
        assert_eq!(gpu_from_driver(driver), None, "{driver} must not be reported as a GPU");
    }
}

// --- pci.ids fixture ---

/// An excerpt of the real database, keeping the shapes a parser has to survive: comments between entries, a
/// subsystem block, a vendor whose devices are not the ones being looked for, and the class database that follows
/// the vendor list.
const PCI_IDS_SAMPLE: &str = "\
# Comments at the top of the file.

1002  Advanced Micro Devices, Inc. [AMD/ATI]
\t744c  Navi 31 [Radeon RX 7900 XT/7900 XTX]
\t\t1002 0e3b  Radeon RX 7900 XTX
\t73df  Navi 22 [Radeon RX 6700/6700 XT/6750 XT]
# A comment sitting between two vendors.
10de  NVIDIA Corporation
\t2204  GA102 [GeForce RTX 3090]
\t2684  AD102 [GeForce RTX 4090]
8086  Intel Corporation
\t56a0  DG2 [Arc A770]

# List of known device classes, subclasses and programming interfaces
C 00  Unclassified device
\t00  Non-VGA unclassified device
C 03  Display controller
\t00  VGA compatible controller
";

// --- pci.ids parser tests ---

#[test]
fn lookup_pci_ids_finds_a_vendor_and_device() {
    let names = lookup_pci_ids(PCI_IDS_SAMPLE, 0x10de, 0x2684);

    assert_eq!(names.vendor.as_deref(), Some("NVIDIA Corporation"));
    assert_eq!(names.device.as_deref(), Some("AD102 [GeForce RTX 4090]"));
}

#[test]
fn lookup_pci_ids_returns_the_vendor_when_the_device_is_unknown() {
    let names = lookup_pci_ids(PCI_IDS_SAMPLE, 0x10de, 0xffff);

    assert_eq!(names.vendor.as_deref(), Some("NVIDIA Corporation"));
    assert_eq!(names.device, None);
}

#[test]
fn lookup_pci_ids_returns_nothing_for_an_unknown_vendor() {
    assert_eq!(lookup_pci_ids(PCI_IDS_SAMPLE, 0xdead, 0x2684), PciNames::default());
}

#[test]
fn lookup_pci_ids_does_not_match_a_device_belonging_to_another_vendor() {
    // 0x2684 is an NVIDIA device id. Asking for it under AMD must not find it.
    let names = lookup_pci_ids(PCI_IDS_SAMPLE, 0x1002, 0x2684);

    assert_eq!(names.vendor.as_deref(), Some("Advanced Micro Devices, Inc. [AMD/ATI]"));
    assert_eq!(names.device, None);
}

#[test]
fn lookup_pci_ids_ignores_subsystem_lines() {
    // `1002 0e3b  Radeon RX 7900 XTX` is indented two tabs and must never be read as a device of the vendor.
    let names = lookup_pci_ids(PCI_IDS_SAMPLE, 0x1002, 0x1002);

    assert_eq!(names.device, None);
}

#[test]
fn lookup_pci_ids_stops_before_the_device_class_database() {
    // `C 03  Display controller` would otherwise parse as vendor 0x0003, and its indented subclasses as devices.
    assert_eq!(lookup_pci_ids(PCI_IDS_SAMPLE, 0x0003, 0x0000), PciNames::default());
}

#[test]
fn lookup_pci_ids_tolerates_an_empty_database() {
    assert_eq!(lookup_pci_ids("", 0x10de, 0x2684), PciNames::default());
}

#[test]
fn lookup_pci_ids_finds_a_device_listed_after_another() {
    let names = lookup_pci_ids(PCI_IDS_SAMPLE, 0x1002, 0x73df);

    assert_eq!(names.device.as_deref(), Some("Navi 22 [Radeon RX 6700/6700 XT/6750 XT]"));
}

// --- drm sysfs parser tests ---

#[test]
fn is_card_name_accepts_a_card_and_rejects_everything_else() {
    assert!(is_card_name("card0"));
    assert!(is_card_name("card1"));
    // Minor numbers are not range-checked: the kernel falls back to a much wider range once the low ones run out.
    assert!(is_card_name("card200"));

    assert!(!is_card_name("card0-DP-1"));
    assert!(!is_card_name("card0-HDMI-A-1"));
    assert!(!is_card_name("renderD128"));
    assert!(!is_card_name("version"));
    assert!(!is_card_name("card"));
}

#[test]
fn parse_hex_id_reads_the_kernels_format() {
    assert_eq!(parse_hex_id("0x10de\n"), Some(0x10de));
    assert_eq!(parse_hex_id("0x1002"), Some(0x1002));
}

#[test]
fn parse_hex_id_rejects_a_value_without_the_prefix() {
    assert_eq!(parse_hex_id("10de\n"), None);
}

#[test]
fn parse_class_reads_the_kernels_format() {
    assert_eq!(parse_class("0x030000\n"), Some(0x030000));
    assert_eq!(parse_class("0x030200\n"), Some(0x030200));
}

#[test]
fn parse_class_rejects_the_unpadded_form_from_uevent() {
    // `uevent` exposes the same number as `PCI_CLASS=30000` — no prefix, and unpadded.
    assert_eq!(parse_class("30000\n"), None);
    assert_eq!(parse_class("0x30000\n"), None);
    assert_eq!(parse_class("0x030000A\n"), None);
}

#[test]
fn parse_class_takes_only_six_hex_digits() {
    assert_eq!(parse_class("0x+30000\n"), None);
    assert_eq!(parse_class("0x-30000\n"), None);
    assert_eq!(parse_class("0x03g000\n"), None);
}

#[test]
fn is_display_class_accepts_every_display_subclass() {
    assert!(is_display_class(0x030000)); // VGA compatible
    assert!(is_display_class(0x030200)); // 3D controller, how laptop NVIDIA cards present
    assert!(is_display_class(0x038000)); // other display controller

    assert!(!is_display_class(0x010802)); // NVMe controller
    assert!(!is_display_class(0x040300)); // audio device
}

#[test]
fn parse_vram_reads_a_decimal_byte_count() {
    assert_eq!(parse_vram("25753026560\n"), Some(25_753_026_560));
}

#[test]
fn parse_vram_treats_zero_as_unknown() {
    // Zero means the figure is unavailable, not that the card has no memory.
    assert_eq!(parse_vram("0\n"), None);
}

#[test]
fn parse_vram_rejects_a_non_numeric_value() {
    assert_eq!(parse_vram("unknown\n"), None);
}

// --- drm card directories ---

/// A card directory whose `device/` attributes hold the given values, newline included as the kernel writes them.
fn card(vendor: Option<&str>, device: Option<&str>, class: Option<&str>, vram: Option<&str>, driver: Option<&str>) -> CardDir {
    CardDir {
        vendor: vendor.map(str::to_string),
        device: device.map(str::to_string),
        class: class.map(str::to_string),
        vram: vram.map(str::to_string),
        driver: driver.map(str::to_string),
    }
}

/// The attributes of a discrete NVIDIA card, which reports no VRAM in sysfs.
fn nvidia_card() -> CardDir {
    card(Some("0x10de\n"), Some("0x2684\n"), Some("0x030000\n"), None, None)
}

#[test]
fn gpu_from_card_dir_names_a_card_from_the_pci_ids_database() {
    let gpu = gpu_from_card_dir(&nvidia_card(), Some(PCI_IDS_SAMPLE)).unwrap();

    assert_eq!(gpu.name, "AD102 [GeForce RTX 4090]");
    assert_eq!(gpu.vendor.as_deref(), Some("NVIDIA"));
    // NVIDIA publishes no VRAM figure anywhere in sysfs.
    assert_eq!(gpu.memory, None);
}

#[test]
fn gpu_from_card_dir_falls_back_to_the_device_id_without_a_database() {
    let gpu = gpu_from_card_dir(&nvidia_card(), None).unwrap();

    assert_eq!(gpu.name, "NVIDIA Device 2684");
    assert_eq!(gpu.vendor.as_deref(), Some("NVIDIA"));
}

#[test]
fn gpu_from_card_dir_names_an_unknown_vendor_by_both_ids() {
    let gpu = gpu_from_card_dir(&card(Some("0xdead\n"), Some("0xbeef\n"), Some("0x030000\n"), None, None), None).unwrap();

    assert_eq!(gpu.name, "Device dead:beef");
    assert_eq!(gpu.vendor, None);
}

#[test]
fn gpu_from_card_dir_reads_amdgpu_vram_in_bytes() {
    let amd = card(Some("0x1002\n"), Some("0x744c\n"), Some("0x030000\n"), Some("25753026560\n"), None);
    let gpu = gpu_from_card_dir(&amd, Some(PCI_IDS_SAMPLE)).unwrap();

    assert_eq!(gpu.name, "Navi 31 [Radeon RX 7900 XT/7900 XTX]");
    assert_eq!(gpu.vendor.as_deref(), Some("AMD"));
    assert_eq!(gpu.memory, Some(25_753_026_560));
}

#[test]
fn gpu_from_card_dir_skips_a_device_that_is_not_a_display_controller() {
    let nvme = card(Some("0x10de\n"), Some("0x2684\n"), Some("0x010802\n"), None, None);

    assert_eq!(gpu_from_card_dir(&nvme, None), None);
}

#[test]
fn gpu_from_card_dir_skips_a_pci_device_with_no_readable_class() {
    assert_eq!(gpu_from_card_dir(&card(Some("0x10de\n"), Some("0x2684\n"), None, None, None), None), None);
}

#[test]
fn gpu_from_card_dir_identifies_a_soc_gpu_by_its_driver() {
    let gpu = gpu_from_card_dir(&card(None, None, None, None, Some("panfrost")), None).unwrap();

    assert_eq!(gpu.name, "Mali GPU");
    assert_eq!(gpu.vendor.as_deref(), Some("ARM"));
    assert_eq!(gpu.memory, None);
}

#[test]
fn gpu_from_card_dir_skips_a_simpledrm_framebuffer() {
    assert_eq!(gpu_from_card_dir(&card(None, None, None, None, Some("simpledrm")), None), None);
}

#[test]
fn gpu_from_card_dir_skips_a_card_with_no_identity_at_all() {
    assert_eq!(gpu_from_card_dir(&card(None, None, None, None, None), None), None);
}

// --- dxgi parser tests ---

/// Encodes a description the way DXGI reports one: UTF-16, NUL-terminated, padded to 128 units.
fn dxgi_description(name: &str) -> Vec<u16> {
    let mut buffer: Vec<u16> = name.encode_utf16().collect();
    buffer.resize(128, 0);
    buffer
}

#[test]
fn adapter_name_stops_at_the_first_nul() {
    assert_eq!(
        adapter_name(&dxgi_description("NVIDIA GeForce RTX 3090")),
        "NVIDIA GeForce RTX 3090"
    );
}

#[test]
fn adapter_name_ignores_padding_after_the_terminator() {
    let mut description = dxgi_description("Intel(R) UHD Graphics");
    // Uninitialised tail bytes are real: the struct is a fixed buffer and only the prefix is written.
    description[100] = u16::from(b'X');

    assert_eq!(adapter_name(&description), "Intel(R) UHD Graphics");
}

#[test]
fn adapter_name_handles_an_unterminated_description() {
    let description: Vec<u16> = "AMD Radeon".encode_utf16().collect();

    assert_eq!(adapter_name(&description), "AMD Radeon");
}

#[test]
fn adapter_name_is_empty_for_an_empty_buffer() {
    assert_eq!(adapter_name(&[0; 128]), "");
}

#[test]
fn is_software_adapter_detects_the_warp_rasteriser() {
    assert!(is_software_adapter(2));
    assert!(is_software_adapter(3));
    assert!(!is_software_adapter(0));
    assert!(!is_software_adapter(1));
}

#[test]
fn gpu_from_adapter_reads_a_discrete_card() {
    let gpu = gpu_from_adapter(&dxgi_description("NVIDIA GeForce RTX 3090"), 0x10de, 25_757_220_864).unwrap();

    assert_eq!(gpu.name, "NVIDIA GeForce RTX 3090");
    assert_eq!(gpu.vendor.as_deref(), Some("NVIDIA"));
    assert_eq!(gpu.memory, Some(25_757_220_864));
}

#[test]
fn gpu_from_adapter_reports_no_memory_for_integrated_graphics() {
    let gpu = gpu_from_adapter(&dxgi_description("Intel(R) UHD Graphics 770"), 0x8086, 0).unwrap();

    assert_eq!(gpu.vendor.as_deref(), Some("Intel"));
    assert_eq!(gpu.memory, None);
}

#[test]
fn gpu_from_adapter_falls_back_to_the_description_for_an_acpi_vendor_id() {
    // DXGI reports values above 0xffff as ACPI ids, which no PCI vendor table can resolve.
    let gpu = gpu_from_adapter(&dxgi_description("Qualcomm(R) Adreno(TM) GPU"), 0x0001_4d10, 0).unwrap();

    assert_eq!(gpu.vendor.as_deref(), Some("Qualcomm"));
}

#[test]
fn gpu_from_adapter_drops_an_adapter_with_no_description() {
    assert_eq!(gpu_from_adapter(&[0; 128], 0x10de, 0), None);
}

// --- ioreg parser tests ---

#[test]
fn vendor_id_from_bytes_reads_apple_from_little_endian_data() {
    // How an Apple Silicon accelerator records `vendor-id`: 0x106b, little-endian, zero-padded to four bytes.
    assert_eq!(vendor_id_from_bytes(&[0x6b, 0x10, 0x00, 0x00]), Some(0x106b));
}

#[test]
fn vendor_id_from_bytes_reads_a_pci_vendor() {
    assert_eq!(vendor_id_from_bytes(&[0xde, 0x10, 0x00, 0x00]), Some(0x10de));
}

#[test]
fn vendor_id_from_bytes_rejects_a_short_value() {
    assert_eq!(vendor_id_from_bytes(&[0x6b]), None);
    assert_eq!(vendor_id_from_bytes(&[]), None);
}

#[test]
fn data_string_trims_trailing_nul_padding() {
    // How Intel Macs record `model`: a C string in an OSData rather than an OSString.
    assert_eq!(
        data_string(b"AMD Radeon Pro 5500M\0\0\0\0"),
        Some("AMD Radeon Pro 5500M".to_string())
    );
}

#[test]
fn data_string_handles_a_value_with_no_terminator() {
    assert_eq!(data_string(b"Apple M2 Max"), Some("Apple M2 Max".to_string()));
}

#[test]
fn data_string_returns_none_for_an_empty_value() {
    assert_eq!(data_string(b""), None);
    assert_eq!(data_string(b"\0\0\0"), None);
}

#[test]
fn vram_from_megabytes_converts_to_bytes() {
    assert_eq!(vram_from_megabytes(8192), 8_589_934_592);
}

#[test]
fn gpu_from_properties_reads_an_apple_silicon_gpu() {
    let gpu = gpu_from_properties(Some("Apple M2 Max"), Some(0x106b), None).unwrap();

    assert_eq!(gpu.name, "Apple M2 Max");
    assert_eq!(gpu.vendor.as_deref(), Some("Apple"));
    // Unified memory: the GPU owns no VRAM of its own.
    assert_eq!(gpu.memory, None);
}

#[test]
fn gpu_from_properties_reads_an_intel_mac_discrete_gpu() {
    let gpu = gpu_from_properties(Some("AMD Radeon Pro 5500M"), Some(0x1002), Some(8_589_934_592)).unwrap();

    assert_eq!(gpu.vendor.as_deref(), Some("AMD"));
    assert_eq!(gpu.memory, Some(8_589_934_592));
}

#[test]
fn gpu_from_properties_falls_back_to_the_model_when_the_vendor_id_is_missing() {
    let gpu = gpu_from_properties(Some("NVIDIA GeForce GT 750M"), None, None).unwrap();

    assert_eq!(gpu.vendor.as_deref(), Some("NVIDIA"));
}

#[test]
fn gpu_from_properties_treats_zero_vram_as_unknown() {
    let gpu = gpu_from_properties(Some("Apple M2 Max"), Some(0x106b), Some(0)).unwrap();

    assert_eq!(gpu.memory, None);
}

#[test]
fn gpu_from_properties_drops_an_entry_with_no_model() {
    assert_eq!(gpu_from_properties(None, Some(0x106b), None), None);
    assert_eq!(gpu_from_properties(Some("   "), Some(0x106b), None), None);
}

// --- nvml and webgpu ---

#[test]
fn device_name_stops_at_the_first_nul() {
    let mut buffer = b"NVIDIA GeForce RTX 4090".to_vec();
    buffer.resize(96, 0);

    assert_eq!(device_name(&buffer), "NVIDIA GeForce RTX 4090");
}

#[test]
fn gpu_from_device_reports_an_nvidia_card() {
    let gpu = gpu_from_device("NVIDIA GeForce RTX 4090", Some(25_757_220_864)).unwrap();

    assert_eq!(gpu.vendor.as_deref(), Some("NVIDIA"));
    assert_eq!(gpu.memory, Some(25_757_220_864));
    assert_eq!(gpu_from_device("", None), None);
}

#[test]
fn the_nvml_fallback_is_consulted_only_when_sysfs_found_no_nvidia_card() {
    let intel = GpuInfo { name: "DG2 [Arc A770]".to_string(), vendor: Some("Intel".to_string()), memory: None };
    let nvidia = GpuInfo { name: "RTX".to_string(), vendor: Some("NVIDIA".to_string()), memory: None };

    let merged = with_nvml_fallback(vec![intel.clone()], || vec![nvidia.clone()]);
    assert_eq!(merged, vec![intel.clone(), nvidia.clone()]);

    let kept = with_nvml_fallback(vec![nvidia.clone()], || panic!("must not be consulted"));
    assert_eq!(kept, vec![nvidia]);
}

#[test]
fn webgpu_needs_a_vulkan_1_1_device_that_is_not_a_cpu_rasteriser() {
    assert!(supports_webgpu(&[(VULKAN_1_1, 2)]));
    assert!(!supports_webgpu(&[(VULKAN_1_1 - 1, 2)]));
    assert!(!supports_webgpu(&[(VULKAN_1_1, DEVICE_TYPE_CPU)]));
    assert!(supports_webgpu(&[(VULKAN_1_1, DEVICE_TYPE_CPU), (VULKAN_1_1 + 1, 1)]));
    assert!(!supports_webgpu(&[]));
}

// --- error tests ---

#[test]
fn errors_describe_themselves() {
    let io = SysinfoError::Io(std::io::Error::new(std::io::ErrorKind::PermissionDenied, "denied"));
    assert!(io.to_string().contains("denied"));

    let api = SysinfoError::GpuApi {
        call: "CreateDXGIFactory1",
        code: 0x8007_0057_u32 as i32,
    };
    assert_eq!(api.to_string(), "CreateDXGIFactory1 failed with status 0x80070057");

    let unsupported = SysinfoError::UnsupportedPlatform { os: "netbsd" };
    assert_eq!(unsupported.to_string(), "gpu detection is not supported on netbsd");
}

#[test]
fn only_the_io_error_carries_a_source() {
    let io = SysinfoError::Io(std::io::Error::other("failed"));
    assert!(io.source().is_some());

    assert!(
        SysinfoError::GpuApi {
            call: "IOServiceMatching",
            code: 0
        }
        .source()
        .is_none()
    );
    assert!(SysinfoError::UnsupportedPlatform { os: "netbsd" }.source().is_none());
}

// --- drm class directories ---

/// A directory entry: its file name, and what reading it as a card directory gave.
fn entry(name: &str, contents: CardDir) -> (String, CardDir) {
    (name.to_string(), contents)
}

/// What reading an entry that is not a card directory gives: nothing at all.
fn no_card() -> CardDir {
    card(None, None, None, None, None)
}

#[test]
fn gpus_from_drm_dir_ignores_connectors_render_nodes_and_the_version_file() {
    let entries = vec![
        entry("card0", nvidia_card()),
        entry("card0-DP-1", nvidia_card()),
        entry("renderD128", nvidia_card()),
        entry("version", no_card()),
    ];

    let gpus = gpus_from_cards(&entries, Some(PCI_IDS_SAMPLE));

    assert_eq!(gpus.len(), 1);
    assert_eq!(gpus[0].name, "AD102 [GeForce RTX 4090]");
}

#[test]
fn gpus_from_drm_dir_returns_cards_in_minor_order() {
    let entries = vec![
        entry("card1", card(Some("0x8086\n"), Some("0x56a0\n"), Some("0x030000\n"), None, None)),
        entry("card0", nvidia_card()),
    ];

    let gpus = gpus_from_cards(&entries, Some(PCI_IDS_SAMPLE));

    assert_eq!(gpus.len(), 2);
    assert_eq!(gpus[0].vendor.as_deref(), Some("NVIDIA"));
    assert_eq!(gpus[1].vendor.as_deref(), Some("Intel"));
}

#[test]
fn gpus_from_cards_returns_an_empty_list_for_an_empty_directory() {
    assert_eq!(gpus_from_cards(&Vec::new(), None), Vec::new());
}

#[test]
fn gpus_from_cards_orders_by_name_as_paths_do_and_skips_cards_that_are_not_gpus() {
    let entries = vec![
        entry("card2", nvidia_card()),
        entry("card10", card(Some("0x8086\n"), Some("0x56a0\n"), Some("0x030000\n"), None, None)),
        entry("card1", card(Some("0x10de\n"), Some("0x2684\n"), Some("0x020000\n"), None, None)),
    ];

    let gpus = gpus_from_cards(&entries, Some(PCI_IDS_SAMPLE));

    // "card10" sorts before "card2", and card1 is a network controller.
    assert_eq!(gpus.len(), 2);
    assert_eq!(gpus[0].vendor.as_deref(), Some("Intel"));
    assert_eq!(gpus[1].vendor.as_deref(), Some("NVIDIA"));
}
