//! Integer color rules of the dashboards: the heatmap ramp and tick-to-tick change colors.

use vstd::prelude::*;

verus! {

/// Heatmap ramp for an intensity `t`: cool (blue → green) in the lower half, warm
/// (green → red) in the upper half.
pub open spec fn spec_heat_color(t: u8) -> (u8, u8, u8) {
    if t < 128 {
        let u = (t * 2) as u8;
        (0, u, (255 - u) as u8)
    } else {
        let u = ((t - 128) * 2) as u8;
        (u, (255 - u) as u8, 0)
    }
}

pub fn heat_color(t: u8) -> (r: (u8, u8, u8))
    ensures
        r == spec_heat_color(t),
{
    if t < 128 {
        let u = t * 2;
        (0, u, 255u8.saturating_sub(u))
    } else {
        let u = (t - 128) * 2;
        (u, 255u8.saturating_sub(u), 0)
    }
}

/// The color a value is shown in relative to its previous frame.
#[derive(Clone, Copy, Debug, PartialEq, Eq, Structural)]
pub enum DeltaColor {
    /// No current value.
    DarkGray,
    /// Unchanged, or no previous value to compare with.
    White,
    /// Went up.
    Green,
    /// Went down.
    Red,
}

pub open spec fn spec_color_delta_u64(prev: u64, cur: u64, had_prev: bool, cur_ok: bool) -> DeltaColor {
    if !cur_ok {
        DeltaColor::DarkGray
    } else if !had_prev {
        DeltaColor::White
    } else if cur > prev {
        DeltaColor::Green
    } else if cur < prev {
        DeltaColor::Red
    } else {
        DeltaColor::White
    }
}

/// Color of an integer cell given its previous frame's value.
pub fn color_delta_u64(prev: u64, cur: u64, had_prev: bool, cur_ok: bool) -> (r: DeltaColor)
    ensures
        r == spec_color_delta_u64(prev, cur, had_prev, cur_ok),
{
    if !cur_ok {
        return DeltaColor::DarkGray;
    }
    if !had_prev {
        return DeltaColor::White;
    }
    if cur > prev {
        DeltaColor::Green
    } else if cur < prev {
        DeltaColor::Red
    } else {
        DeltaColor::White
    }
}

/// Moving up is green and moving down is red, never the other way; swapping previous and
/// current swaps the two.
pub proof fn law_color_delta_antisymmetric(a: u64, b: u64)
    ensures
        spec_color_delta_u64(a, b, true, true) == DeltaColor::Green <==> spec_color_delta_u64(b, a, true, true)
            == DeltaColor::Red,
        spec_color_delta_u64(a, a, true, true) == DeltaColor::White,
{
}

} // verus!
