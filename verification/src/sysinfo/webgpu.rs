//! Whether this machine can run WebGPU: the rule deciding which Vulkan devices count.
//!
//! Probing Vulkan itself means loading its loader at runtime through foreign calls, which the application layer
//! does; the rule applied to the devices it lists is here.

use vstd::prelude::*;

verus! {

/// `VK_API_VERSION_1_1`, the oldest Vulkan version Dawn accepts a device at.
pub const VULKAN_1_1: u32 = 4198400;

/// `VK_PHYSICAL_DEVICE_TYPE_CPU`, the type `lavapipe` and other software rasterisers report.
pub const DEVICE_TYPE_CPU: i32 = 4;

/// Whether one `(apiVersion, deviceType)` pair can run WebGPU: a device that is not a CPU, supporting Vulkan 1.1 or
/// newer once the variant bits above the version are masked off.
pub open spec fn webgpu_device(device: (u32, i32)) -> bool {
    device.1 != DEVICE_TYPE_CPU && device.0 & 0x1fff_ffffu32 >= VULKAN_1_1
}

/// Says whether any of `devices`, each an `(apiVersion, deviceType)` pair from `VkPhysicalDeviceProperties`, can
/// run WebGPU.
pub fn supports_webgpu(devices: &[(u32, i32)]) -> (r: bool)
    ensures
        r == exists|i: int| 0 <= i < devices@.len() && webgpu_device(#[trigger] devices@[i]),
{
    let mut i: usize = 0;
    while i < devices.len()
        invariant
            i <= devices@.len(),
            forall|k: int| 0 <= k < i ==> !webgpu_device(#[trigger] devices@[k]),
        decreases devices@.len() - i,
    {
        let (api_version, device_type) = devices[i];
        if device_type != DEVICE_TYPE_CPU && api_version & 0x1fff_ffffu32 >= VULKAN_1_1 {
            assert(webgpu_device(devices@[i as int]));
            return true;
        }
        i += 1;
    }
    false
}

} // verus!
