//! The launch configuration: the runtime policy derived from the hardware
//! profile and the thermal reading, and its rendering as the environment
//! contract handed to the child process.

use vstd::prelude::*;
use crate::policy::{spec_fps_cap, spec_vsync, adjust_fps};
use crate::profile::HardwareProfile;
use crate::text::{spec_decimal, u32_to_string};
use crate::thermal::{spec_parses_as_u32, spec_reading_of, DEFAULT_READING};

verus! {

/// The graphics API family published for the child. There is no third
/// state.
#[derive(Clone, Copy, PartialEq, Eq, Structural, Debug)]
pub enum Backend {
    Vulkan,
    Opengl,
}

/// The runtime policy for one launch. Derived once, never mutated.
#[derive(Clone, Copy, PartialEq, Eq, Structural, Debug)]
pub struct LaunchConfiguration {
    pub backend: Backend,
    pub fps_cap: u32,
    pub vsync_enabled: bool,
    pub compat_layer_enabled: bool,
}

impl LaunchConfiguration {
    /// The configuration invariant: the cap is one of the four published
    /// tiers and vsync is on exactly for the low tiers.
    pub open spec fn wf(self) -> bool {
        &&& self.vsync_enabled == spec_vsync(self.fps_cap)
        &&& (self.fps_cap == 30 || self.fps_cap == 60 || self.fps_cap == 120 || self.fps_cap
            == 144)
    }
}

/// The configuration is a pure function of the profile and the reading.
pub open spec fn spec_build(p: HardwareProfile, reading: u32) -> LaunchConfiguration {
    LaunchConfiguration {
        backend: if p.vulkan_available {
            Backend::Vulkan
        } else {
            Backend::Opengl
        },
        fps_cap: spec_fps_cap(reading),
        vsync_enabled: spec_vsync(spec_fps_cap(reading)),
        compat_layer_enabled: p.xwayland_present,
    }
}

/// Derive the launch configuration from a profile and a thermal reading.
/// Total: every profile and reading yields a well-formed configuration.
pub fn build(profile: &HardwareProfile, reading: u32) -> (c: LaunchConfiguration)
    ensures
        c == spec_build(*profile, reading),
        c.backend == Backend::Vulkan <==> profile.vulkan_available,
        c.fps_cap == spec_fps_cap(reading),
        c.vsync_enabled == (c.fps_cap <= 60),
        c.compat_layer_enabled == profile.xwayland_present,
        c.wf(),
{
    let fps_cap = adjust_fps(reading);
    LaunchConfiguration {
        backend: if profile.vulkan_available {
            Backend::Vulkan
        } else {
            Backend::Opengl
        },
        fps_cap,
        vsync_enabled: fps_cap <= 60,
        compat_layer_enabled: profile.xwayland_present,
    }
}

/// The text published for a backend.
pub open spec fn spec_backend_value(b: Backend) -> Seq<char> {
    match b {
        Backend::Vulkan => "vulkan"@,
        Backend::Opengl => "opengl"@,
    }
}

/// Render the configuration as the environment contract for the child:
/// the compatibility flag first when the compatibility layer is on, then
/// the backend selector, the frame-rate cap and the vsync flag.
pub fn env_assignments(c: &LaunchConfiguration) -> (r: Vec<(&'static str, String)>)
    ensures
        r@.len() == (if c.compat_layer_enabled {
            4int
        } else {
            3int
        }),
        c.compat_layer_enabled ==> r@[0].0@ == "GAMEFRAME_XWAYLAND"@ && r@[0].1@ == "1"@,
        r@[r@.len() - 3].0@ == "GAMEFRAME_API"@,
        r@[r@.len() - 3].1@ == spec_backend_value(c.backend),
        r@[r@.len() - 2].0@ == "GAMEFRAME_FPS"@,
        r@[r@.len() - 2].1@ == spec_decimal(c.fps_cap as nat),
        r@[r@.len() - 1].0@ == "GAMEFRAME_VSYNC"@,
        r@[r@.len() - 1].1@ == (if c.vsync_enabled {
            "1"@
        } else {
            "0"@
        }),
{
    let mut r: Vec<(&'static str, String)> = Vec::new();
    if c.compat_layer_enabled {
        r.push(("GAMEFRAME_XWAYLAND", String::from_str("1")));
    }
    let backend_value = match c.backend {
        Backend::Vulkan => "vulkan",
        Backend::Opengl => "opengl",
    };
    r.push(("GAMEFRAME_API", String::from_str(backend_value)));
    r.push(("GAMEFRAME_FPS", u32_to_string(c.fps_cap)));
    r.push(("GAMEFRAME_VSYNC", String::from_str(if c.vsync_enabled {
        "1"
    } else {
        "0"
    })));
    r
}

/// Vsync is a function of the cap alone: on exactly for the two low tiers,
/// off exactly for the two high ones, whatever the profile says.
pub proof fn lemma_vsync_tracks_cap(p: HardwareProfile, reading: u32)
    ensures
        spec_build(p, reading).vsync_enabled == (spec_build(p, reading).fps_cap <= 60),
        spec_build(p, reading).vsync_enabled <==> (spec_build(p, reading).fps_cap == 30
            || spec_build(p, reading).fps_cap == 60),
        !spec_build(p, reading).vsync_enabled <==> (spec_build(p, reading).fps_cap == 120
            || spec_build(p, reading).fps_cap == 144),
{
    crate::policy::lemma_fps_cap_tiers(reading);
}

/// The backend is Vulkan exactly when the Vulkan probe reported
/// availability, and OpenGL exactly otherwise.
pub proof fn lemma_backend_selection(p: HardwareProfile, reading: u32)
    ensures
        spec_build(p, reading).backend == Backend::Vulkan <==> p.vulkan_available,
        spec_build(p, reading).backend == Backend::Opengl <==> !p.vulkan_available,
{
}

/// The vendor and version strings are informational only: profiles that
/// agree on the two availability flags yield the same configuration.
pub proof fn lemma_vendor_informational(p1: HardwareProfile, p2: HardwareProfile, reading: u32)
    requires
        p1.vulkan_available == p2.vulkan_available,
        p1.xwayland_present == p2.xwayland_present,
    ensures
        spec_build(p1, reading) == spec_build(p2, reading),
{
}

/// A missing or unparsable thermal reading falls back to the default, and
/// the default reading caps at 120 with vsync off.
pub proof fn lemma_default_reading(p: HardwareProfile)
    ensures
        spec_build(p, DEFAULT_READING).fps_cap == 120,
        !spec_build(p, DEFAULT_READING).vsync_enabled,
{
}

/// A raw reading that does not parse configures the launch exactly as the
/// default reading does.
pub proof fn lemma_unparsable_reading_defaults(p: HardwareProfile, s: Seq<char>)
    requires
        !spec_parses_as_u32(s),
    ensures
        spec_build(p, spec_reading_of(s)) == spec_build(p, DEFAULT_READING),
{
}

} // verus!
