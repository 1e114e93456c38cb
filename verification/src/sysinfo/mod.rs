//! Hardware probes: what processor, how much memory, which graphics adapters.
//!
//! The platform interfaces themselves are asked by the application layer; what lives here is everything those
//! answers go through on their way to a [`GpuInfo`], a [`CpuInfo`] or a [`MemoryInfo`]: naming vendors, parsing
//! the kernel's attribute files and the `pci.ids` database, decoding the fixed buffers the graphics APIs fill, and
//! deciding what counts as a GPU at all.

pub mod cpu;
pub mod error;
pub mod gpu;
pub mod gpu_drm;
pub mod gpu_dxgi;
pub mod gpu_ioreg;
pub mod gpu_nvml;
pub mod gpu_sysfs;
pub mod memory;
pub mod pci_ids;
pub mod vendor;
pub mod webgpu;

pub use cpu::CpuInfo;
pub use error::{Result, SysinfoError};
pub use gpu::GpuInfo;
pub use memory::MemoryInfo;
