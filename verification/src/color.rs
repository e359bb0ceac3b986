//! Pixel output: gamma correction and quantization of accumulated
//! colour into display bytes.

use vstd::prelude::*;
use crate::fixed::{fp_sqrt, in_fp, spec_sqrt, tdiv, ONE};
use crate::interval::{Interval, spec_clamp};
use crate::vec3::{Vec3, vec_wf};

verus! {

/// The top of the clamping range before quantization: just below one,
/// so a full channel maps to the largest byte and no further.
pub const INTENSITY_MAX: i64 = 65470;

/// What gamma correction returns: the square root of a positive linear
/// value (gamma two), zero otherwise.
pub open spec fn spec_linear_to_gamma(c: int) -> int {
    if c > 0 {
        spec_sqrt(c)
    } else {
        0
    }
}

/// Map a linear colour channel to display gamma.
pub fn linear_to_gamma(linear_component: i64) -> (r: i64)
    requires
        in_fp(linear_component as int),
    ensures
        r as int == spec_linear_to_gamma(linear_component as int),
        r >= 0,
        in_fp(r as int),
{
    if linear_component > 0 {
        fp_sqrt(linear_component)
    } else {
        0
    }
}

/// What quantization returns: gamma-correct, clamp into the displayable
/// range, then scale to the byte range and truncate.
pub open spec fn spec_channel_byte(c: int) -> int {
    let g = spec_linear_to_gamma(c);
    let clamped = spec_clamp(Interval { min: 0i64, max: INTENSITY_MAX }, g);
    tdiv(256 * clamped, 65536)
}

/// One colour channel as a display byte.
pub fn channel_byte(c: i64) -> (r: u8)
    requires
        in_fp(c as int),
    ensures
        r as int == spec_channel_byte(c as int),
{
    let g: i64 = linear_to_gamma(c);
    let intensity: Interval = Interval::new(0, INTENSITY_MAX);
    let clamped: i64 = intensity.clamp(g);
    let wide: u64 = (clamped as u64) * 256;
    proof {
        assert(wide / 65536 < 256) by (nonlinear_arith)
            requires
                wide == 256 * (clamped as int),
                0 <= clamped as int <= 65470,
        ;
    }
    (wide / 65536) as u8
}

/// All three channels of a colour as display bytes.
pub fn color_bytes(color: &Vec3) -> (r: (u8, u8, u8))
    requires
        vec_wf(*color),
    ensures
        r.0 as int == spec_channel_byte(color.x as int),
        r.1 as int == spec_channel_byte(color.y as int),
        r.2 as int == spec_channel_byte(color.z as int),
{
    (channel_byte(color.x), channel_byte(color.y), channel_byte(color.z))
}

/// A black channel quantizes to the zero byte.
pub proof fn lemma_black_byte()
    ensures
        spec_channel_byte(0) == 0,
{
}

} // verus!
