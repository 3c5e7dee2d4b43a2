//! The thermal policy: a pure map from a temperature reading to a
//! frame-rate cap, and the vsync rule derived from that cap.

use vstd::prelude::*;

verus! {

/// The frame-rate cap chosen for a temperature reading. Boundary readings
/// (exactly 85, 70, 50) fall into the lower-fps branch: the comparisons are
/// strict.
pub open spec fn spec_fps_cap(temp: u32) -> u32 {
    if temp > 85 {
        30
    } else if temp > 70 {
        60
    } else if temp > 50 {
        120
    } else {
        144
    }
}

/// Vsync is enabled exactly for the low frame-rate caps.
pub open spec fn spec_vsync(fps_cap: u32) -> bool {
    fps_cap <= 60
}

/// Map a temperature reading to a frame-rate cap.
///
/// Hotter readings throttle harder; a reading at or below 50 runs uncapped
/// at the highest tier. Out-of-range readings need no special handling: any
/// value above 85 lands in the lowest tier.
pub fn adjust_fps(temp: u32) -> (fps: u32)
    ensures
        fps == spec_fps_cap(temp),
        temp > 85 ==> fps == 30,
        70 < temp <= 85 ==> fps == 60,
        50 < temp <= 70 ==> fps == 120,
        temp <= 50 ==> fps == 144,
{
    if temp > 85 {
        30
    } else if temp > 70 {
        60
    } else if temp > 50 {
        120
    } else {
        144
    }
}

/// The policy yields only the four published caps, and vsync is on exactly
/// for the two low tiers.
pub proof fn lemma_fps_cap_tiers(temp: u32)
    ensures
        spec_fps_cap(temp) == 30 || spec_fps_cap(temp) == 60 || spec_fps_cap(temp) == 120
            || spec_fps_cap(temp) == 144,
        spec_vsync(spec_fps_cap(temp)) <==> (spec_fps_cap(temp) == 30 || spec_fps_cap(temp)
            == 60),
{
}

} // verus!
