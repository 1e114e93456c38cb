//! The description of the machine's processor.

use vstd::prelude::*;

use crate::text::{chars_of, string_of, trim, trimmed};

verus! {

/// A description of the machine's processor.
#[derive(Debug, Clone, PartialEq, Eq)]
pub struct CpuInfo {
    /// The processor's model string, or `"Unknown CPU"` when the platform reports none.
    pub name: String,
    /// The number of logical cores (hardware threads), as the operating system sees them.
    pub cores: usize,
    /// The number of physical cores, or `None` when the platform does not report it.
    pub physical_cores: Option<usize>,
    /// The architecture this binary was compiled for, e.g. `"x86_64"` or `"aarch64"`.
    pub arch: &'static str,
}

/// The name a processor is given: its first core's brand string, trimmed, unless that is missing or blank.
pub open spec fn cpu_name(first_brand: Option<Seq<char>>) -> Seq<char> {
    match first_brand {
        Some(brand) => if trim(brand).len() > 0 {
            trim(brand)
        } else {
            "Unknown CPU"@
        },
        None => "Unknown CPU"@,
    }
}

impl CpuInfo {
    /// Assembles the processor description from what the platform reported: the brand string of the first core
    /// (if there is one), the logical and physical core counts, and the compiled-for architecture.
    pub fn from_parts(
        first_brand: Option<&str>,
        cores: usize,
        physical_cores: Option<usize>,
        arch: &'static str,
    ) -> (r: CpuInfo)
        ensures
            r.name@ == cpu_name(
                match first_brand {
                    Some(b) => Some(b@),
                    None => None,
                },
            ),
            r.cores == cores,
            r.physical_cores == physical_cores,
            r.arch == arch,
    {
        let name = match first_brand {
            Some(brand) => {
                let raw = chars_of(brand);
                let t = trimmed(&raw);
                if t.len() > 0 {
                    string_of(&t)
                } else {
                    "Unknown CPU".to_owned()
                }
            },
            None => "Unknown CPU".to_owned(),
        };
        CpuInfo { name, cores, physical_cores, arch }
    }
}

} // verus!
