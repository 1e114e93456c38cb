//! IP-based location enrichment: the answer a lookup service gives, and where to ask for it.
//!
//! The lookup itself is an HTTP request and happens in the application; it is **opt-in**, since it discloses the
//! machine's public IP address to a third party.

use vstd::prelude::*;

use crate::text::{chars_of, string_of};

verus! {

/// Location details for the machine's public IP address, as reported by ipinfo.io or a compatible service.
///
/// Every field is optional: the service omits what it cannot determine, and a self-hosted endpoint may return less.
#[derive(Debug, Clone, Default)]
pub struct Geolocation {
    /// The public IP address the lookup resolved from.
    pub ip: Option<String>,
    /// Reverse-DNS hostname for the IP.
    pub hostname: Option<String>,
    /// City name.
    pub city: Option<String>,
    /// Region or state name.
    pub region: Option<String>,
    /// ISO 3166-1 alpha-2 country code.
    pub country: Option<String>,
    /// `"latitude,longitude"`.
    pub loc: Option<String>,
    /// The owning organization, usually the ISP.
    pub org: Option<String>,
    /// Postal code.
    pub postal: Option<String>,
    /// IANA timezone name.
    pub timezone: Option<String>,
}

/// The default lookup service.
pub const DEFAULT_URL: &'static str = "https://ipinfo.io";

/// How long the lookup may take, in milliseconds, before it is abandoned, unless the caller says otherwise.
pub const DEFAULT_TIMEOUT_MS: u64 = 1000;

/// The most bytes of a lookup response that are read: the service answers in well under a kilobyte, so anything
/// larger is a misconfigured endpoint or a hostile one.
pub const MAX_RESPONSE: u64 = 65536;

/// `s` without any trailing `/`, as `str::trim_end_matches('/')` leaves it.
pub open spec fn without_trailing_slashes(s: Seq<char>) -> Seq<char>
    decreases s.len(),
{
    if s.len() > 0 && s.last() == '/' {
        without_trailing_slashes(s.drop_last())
    } else {
        s
    }
}

/// The characters of `s` without any trailing `/`.
pub fn trim_trailing_slashes(s: &[char]) -> (out: Vec<char>)
    ensures
        out@ == without_trailing_slashes(s@),
{
    let mut end = s.len();
    assert(s@.subrange(0, end as int) =~= s@);
    while end > 0 && s[end - 1] == '/'
        invariant
            end <= s@.len(),
            without_trailing_slashes(s@.subrange(0, end as int)) == without_trailing_slashes(s@),
        decreases end,
    {
        assert(s@.subrange(0, end as int).drop_last() =~= s@.subrange(0, end - 1));
        end -= 1;
    }
    assert(s@.subrange(0, end as int).len() == 0 || s@.subrange(0, end as int).last() != '/');
    crate::text::copy_range(s, 0, end)
}

/// The address a lookup against `base_url` requests: the base without trailing slashes, then `/json`.
pub open spec fn lookup_address(base_url: Seq<char>) -> Seq<char> {
    without_trailing_slashes(base_url) + seq!['/', 'j', 's', 'o', 'n']
}

/// The address a lookup against `base_url` requests, `<base_url>/json`.
pub fn lookup_url(base_url: &str) -> (url: String)
    ensures
        url@ == lookup_address(base_url@),
{
    let chars = chars_of(base_url);
    let mut out = trim_trailing_slashes(chars.as_slice());
    out.push('/');
    out.push('j');
    out.push('s');
    out.push('o');
    out.push('n');
    assert(out@ =~= lookup_address(base_url@));
    string_of(out.as_slice())
}

} // verus!
