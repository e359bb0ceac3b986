//! An offline path tracer over exact fixed-point arithmetic: geometric
//! primitives with materials, a bounding-volume hierarchy for sub-linear
//! ray intersection, and a stochastic camera integrator.

pub mod aabb;
pub mod bvh;
pub mod camera;
pub mod color;
pub mod cylinder;
pub mod fixed;
pub mod hittable;
pub mod hittable_list;
pub mod material;
pub mod quad;
pub mod interval;
pub mod ray;
pub mod rng;
pub mod sphere;
pub mod trig;
pub mod vec3;

use vstd::prelude::*;
use crate::fixed::{fp_add, fp_sub, fp_mul, fp_div, in_fp, spec_add, spec_sub, spec_mul, spec_div, ONE};
use crate::rng::{RandomSource, std_rng_next};

verus! {

/// π in fixed point.
pub const PI_FP: i64 = 205887;

/// What converting degrees to radians returns.
pub open spec fn spec_deg2rad(deg: int) -> int {
    spec_div(spec_mul(deg, PI_FP as int), 11796480)
}

/// The radians equivalent of an angle in degrees.
pub fn degrees_to_radians(degrees: i64) -> (r: i64)
    requires
        in_fp(degrees as int),
    ensures
        r as int == spec_deg2rad(degrees as int),
        in_fp(r as int),
{
    fp_div(fp_mul(degrees, PI_FP), 11796480)
}

/// Up to one full turn in degrees converts to at most one full turn in
/// radians, so the trigonometric routines accept the result.
pub proof fn lemma_deg2rad_range(deg: int)
    requires
        -23592960 <= deg <= 23592960,
    ensures
        -(crate::trig::TWO_PI_FP as int) <= spec_deg2rad(deg) <= crate::trig::TWO_PI_FP as int,
{
    let prod = deg * (PI_FP as int);
    assert(-4857483755520 <= prod <= 4857483755520) by (nonlinear_arith)
        requires
            -23592960 <= deg <= 23592960,
            prod == deg * 205887,
    ;
    fixed::lemma_tdiv_bound(prod, 65536, 74119320);
    let m = fixed::spec_mul(deg, PI_FP as int);
    assert(-74119320 <= m <= 74119320);
    let prod2 = m * 65536;
    assert(-4857483755520 <= prod2 <= 4857483755520) by (nonlinear_arith)
        requires
            -74119320 <= m <= 74119320,
            prod2 == m * 65536,
    ;
    fixed::lemma_tdiv_bound(prod2, 11796480, 411774);
}

/// The unit-range value carved out of one raw draw.
pub open spec fn spec_unit_draw(raw: u64) -> int {
    (raw % 65536) as int
}

/// A random value in `[0, 1)`, one draw from the source.
pub fn random_double(rng: &mut RandomSource) -> (r: i64)
    ensures
        final(rng)@.0 == old(rng)@.0,
        final(rng)@.1 == old(rng)@.1 + 1,
        r as int == spec_unit_draw(std_rng_next(old(rng)@.0, old(rng)@.1)),
        0 <= r < ONE,
{
    let raw: u64 = rng.next_u64();
    (raw % 65536) as i64
}

/// What stretching a unit-range value into `[min, max)` returns.
pub open spec fn spec_range_draw(min: int, max: int, u: int) -> int {
    spec_add(min, spec_mul(spec_sub(max, min), u))
}

/// A random value in `[min, max)`, one draw from the source.
pub fn random_double_range(rng: &mut RandomSource, min: i64, max: i64) -> (r: i64)
    requires
        in_fp(min as int),
        in_fp(max as int),
    ensures
        final(rng)@.0 == old(rng)@.0,
        final(rng)@.1 == old(rng)@.1 + 1,
        r as int == spec_range_draw(
            min as int,
            max as int,
            spec_unit_draw(std_rng_next(old(rng)@.0, old(rng)@.1)),
        ),
        in_fp(r as int),
{
    let u: i64 = random_double(rng);
    fp_add(min, fp_mul(fp_sub(max, min), u))
}

} // verus!
