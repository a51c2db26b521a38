//! System information around the probe: the kernel release string and
//! whether it meets the facility's minimum version.

use vstd::prelude::*;

use crate::digits::{digits_val, parses_as_u32};
use crate::text::{sep_index, Sep};

verus! {

/// The facility needs this kernel major version at least ...
pub const MIN_KERNEL_MAJOR: u32 = 5;

/// ... and, at that major version, this minor version.
pub const MIN_KERNEL_MINOR: u32 = 1;

/// Whether a kernel release string such as `5.15.2-generic` names a
/// version at or above the facility's minimum. The first two
/// dot-separated components must both be plain digit strings; a release
/// with fewer than two components, or with a malformed component, does
/// not meet the minimum.
pub open spec fn version_met(s: Seq<char>) -> bool {
    let i = sep_index(s, Sep::Exact('.'));
    if 0 <= i < s.len() {
        let maj = s.take(i);
        let rest = s.skip(i + 1);
        let j = sep_index(rest, Sep::Exact('.'));
        let min = rest.take(j);
        &&& parses_as_u32(maj)
        &&& parses_as_u32(min)
        &&& (digits_val(maj) > MIN_KERNEL_MAJOR || (digits_val(maj) == MIN_KERNEL_MAJOR
            && digits_val(min) >= MIN_KERNEL_MINOR))
    } else {
        false
    }
}

/// Decides `version_met` for a kernel release string.
pub fn kernel_release_meets_min(release: &str) -> (r: bool)
    ensures
        r == version_met(release@),
{
    let n = release.unicode_len();
    proof {
        assert(release@.skip(0) =~= release@);
    }
    let i = crate::text::find_sep(release, Sep::Exact('.'), 0);
    if i == n {
        return false;
    }
    let maj_s = release.substring_char(0, i);
    let rest = release.substring_char(i + 1, n);
    proof {
        assert(maj_s@ =~= release@.take(i as int));
        assert(rest@ =~= release@.skip(i + 1));
        assert(rest@.skip(0) =~= rest@);
    }
    let j = crate::text::find_sep(rest, Sep::Exact('.'), 0);
    let min_s = rest.substring_char(0, j);
    proof {
        assert(min_s@ =~= rest@.take(j as int));
    }
    let maj = crate::digits::parse_u32_digits(maj_s);
    let min = crate::digits::parse_u32_digits(min_s);
    match (maj, min) {
        (Some(a), Some(b)) => a > MIN_KERNEL_MAJOR || (a == MIN_KERNEL_MAJOR
            && b >= MIN_KERNEL_MINOR),
        _ => false,
    }
}

/// What the diagnostic knows about the running system: the machine
/// architecture and kernel release as reported by the kernel, whether
/// the probe found the facility, and whether the release meets the
/// facility's minimum version.
pub struct SystemInfo {
    pub architecture: String,
    pub kernel_version: String,
    pub io_uring_support: bool,
    pub min_kernel_version_met: bool,
}

impl Default for SystemInfo {
    /// A placeholder for a system that could not be interrogated.
    fn default() -> (r: Self)
        ensures
            r.architecture@ == "unknown"@,
            r.kernel_version@ == "unknown"@,
            !r.io_uring_support,
            !r.min_kernel_version_met,
    {
        SystemInfo {
            architecture: "unknown".to_owned(),
            kernel_version: "unknown".to_owned(),
            io_uring_support: false,
            min_kernel_version_met: false,
        }
    }
}

/// Builds the system information record from the two reported strings.
/// Facility support starts out false: it is the probe's to establish.
pub fn system_info_from_uname(architecture: String, kernel_version: String) -> (r: SystemInfo)
    ensures
        r.architecture@ == architecture@,
        r.kernel_version@ == kernel_version@,
        !r.io_uring_support,
        r.min_kernel_version_met == version_met(kernel_version@),
{
    let met = kernel_release_meets_min(kernel_version.as_str());
    SystemInfo {
        architecture,
        kernel_version,
        io_uring_support: false,
        min_kernel_version_met: met,
    }
}

} // verus!
