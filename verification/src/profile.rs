//! The hardware profile: the declared and probed capabilities of the host,
//! assembled once per launch from best-effort probe results.

use vstd::prelude::*;
use crate::glinfo::spec_extracted_version;

verus! {

/// What the host is known to offer. Built once per launch; never mutated.
pub struct HardwareProfile {
    /// Declared GPU vendor; purely informational.
    pub gpu_vendor: String,
    /// Whether the Vulkan diagnostic probe could be run at all.
    pub vulkan_available: bool,
    /// The OpenGL version as reported by the diagnostic output.
    pub opengl_version: String,
    /// Whether the Xwayland compatibility probe could be run at all.
    pub xwayland_present: bool,
}

/// Assemble a profile from raw probe results. Every input is best-effort:
/// a missing vendor becomes `unknown`, missing diagnostic output yields an
/// `unknown` version, and the two availability flags are taken as given.
pub fn build_profile(
    vendor: Option<String>,
    vulkan_available: bool,
    opengl_output: Option<&str>,
    xwayland_present: bool,
) -> (p: HardwareProfile)
    ensures
        vendor matches Some(v) ==> p.gpu_vendor@ == v@,
        vendor is None ==> p.gpu_vendor@ == "unknown"@,
        opengl_output matches Some(o) ==> p.opengl_version@ == spec_extracted_version(o@),
        opengl_output is None ==> p.opengl_version@ == "unknown"@,
        p.vulkan_available == vulkan_available,
        p.xwayland_present == xwayland_present,
{
    let gpu_vendor = match vendor {
        Some(v) => v,
        None => String::from_str("unknown"),
    };
    let opengl_version = match opengl_output {
        Some(o) => crate::glinfo::extract_opengl_version(o),
        None => String::from_str("unknown"),
    };
    HardwareProfile { gpu_vendor, vulkan_available, opengl_version, xwayland_present }
}

} // verus!
