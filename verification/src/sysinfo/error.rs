//! The one way hardware probing can fail: a GPU enumeration that could not run.

use vstd::prelude::*;

use crate::text::{chars_of, extend_chars, hex_fixed, hex_fixed_chars, string_of};

verus! {

/// The standard library's I/O error, carried through unopened.
#[verifier::external_type_specification]
#[verifier::external_body]
pub struct ExIoError(std::io::Error);

/// A convenience alias for results returned by this module.
pub type Result<T> = core::result::Result<T, SysinfoError>;

/// An error produced while probing the machine's hardware.
///
/// An empty GPU list is not an error: these variants report a probe that could not run, never one that ran and
/// found nothing.
#[derive(Debug)]
pub enum SysinfoError {
    /// Enumerating the graphics devices in the filesystem failed.
    Io(std::io::Error),
    /// An operating-system graphics call returned a failure status.
    GpuApi {
        /// The entry point that failed, e.g. `"IOServiceGetMatchingServices"` or `"CreateDXGIFactory1"`.
        call: &'static str,
        /// The status it returned: a `kern_return_t` on macOS, an `HRESULT` on Windows.
        code: i32,
    },
    /// GPU detection has no implementation for this operating system.
    UnsupportedPlatform {
        /// The operating system, as `std::env::consts::OS` names it.
        os: &'static str,
    },
}

/// `std::io::Error`'s `Display` form, through `ToString::to_string`.
#[verifier::external_body]
fn io_error_text(error: &std::io::Error) -> String {
    error.to_string()
}

/// An `i32` as `{:#010x}` writes it: `0x` and the eight hex digits of its two's-complement bit pattern.
pub open spec fn status_text(code: i32) -> Seq<char> {
    "0x"@ + hex_fixed((code as u32) as nat, 8)
}

impl SysinfoError {
    /// The message for a failed graphics call: the entry point, then its status in hex.
    pub open spec fn gpu_api_text(call: Seq<char>, code: i32) -> Seq<char> {
        call + " failed with status "@ + status_text(code)
    }

    /// The message for an unsupported operating system.
    pub open spec fn unsupported_text(os: Seq<char>) -> Seq<char> {
        "gpu detection is not supported on "@ + os
    }

    /// The human-readable description of the error.
    ///
    /// For [`Io`](SysinfoError::Io) it is `"reading the graphics devices failed: "` followed by the I/O error's own
    /// description.
    pub fn to_string(&self) -> (s: String)
        ensures
            self matches SysinfoError::GpuApi { call, code } ==> s@ == Self::gpu_api_text(call@, *code),
            self matches SysinfoError::UnsupportedPlatform { os } ==> s@ == Self::unsupported_text(os@),
            self is Io ==> "reading the graphics devices failed: "@.is_prefix_of(s@),
    {
        match self {
            SysinfoError::Io(error) => {
                let mut out = chars_of("reading the graphics devices failed: ");
                let detail = chars_of(io_error_text(error).as_str());
                extend_chars(&mut out, &detail);
                assert("reading the graphics devices failed: "@.is_prefix_of(out@));
                string_of(&out)
            },
            SysinfoError::GpuApi { call, code } => {
                let mut out = chars_of(call);
                extend_chars(&mut out, &chars_of(" failed with status "));
                extend_chars(&mut out, &chars_of("0x"));
                let bits = *code as u32;
                extend_chars(&mut out, &hex_fixed_chars(bits as u64, 8));
                assert(out@ =~= Self::gpu_api_text(call@, *code));
                string_of(&out)
            },
            SysinfoError::UnsupportedPlatform { os } => {
                let mut out = chars_of("gpu detection is not supported on ");
                extend_chars(&mut out, &chars_of(os));
                string_of(&out)
            },
        }
    }

    /// The lower-level error this one wraps: only an I/O failure has one.
    pub fn source(&self) -> (r: Option<&std::io::Error>)
        ensures
            r is Some <==> self is Io,
            self matches SysinfoError::Io(e) ==> r == Some(e),
    {
        match self {
            SysinfoError::Io(error) => Some(error),
            _ => None,
        }
    }
}

} // verus!
