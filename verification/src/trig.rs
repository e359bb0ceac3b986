//! Sine and cosine over the fixed-point scalar, by range reduction and
//! truncated Taylor series. The series is exact at zero and accurate to
//! a few fixed-point ticks over one full turn, which is all the rotation
//! wrappers and the camera ask of it.

use vstd::prelude::*;
use crate::fixed::{
    fp_add, fp_sub, fp_neg, fp_mul, fp_div, in_fp,
    spec_add, spec_sub, spec_neg, spec_mul, spec_div, ONE,
};
use crate::PI_FP;

verus! {

/// π/2 in fixed point.
pub const HALF_PI_FP: i64 = 102944;

/// 2π in fixed point.
pub const TWO_PI_FP: i64 = 411775;

/// One wrap of range reduction into `[-π, π]`.
pub open spec fn spec_reduce_pi(x: int) -> int {
    if x > PI_FP as int {
        spec_sub(x, TWO_PI_FP as int)
    } else if x < -(PI_FP as int) {
        spec_add(x, TWO_PI_FP as int)
    } else {
        x
    }
}

/// The sine series on `[-π/2, π/2]`:
/// `x - x^3/3! + x^5/5! - x^7/7! + x^9/9!`.
pub open spec fn spec_sin_taylor(x: int) -> int {
    let x2 = spec_mul(x, x);
    let x3 = spec_mul(x2, x);
    let x5 = spec_mul(x3, x2);
    let x7 = spec_mul(x5, x2);
    let x9 = spec_mul(x7, x2);
    spec_add(
        spec_sub(
            spec_add(spec_sub(x, spec_div(x3, 393216)), spec_div(x5, 7864320)),
            spec_div(x7, 330301440),
        ),
        spec_div(x9, 23781703680),
    )
}

/// The cosine series on `[-π/2, π/2]`:
/// `1 - x^2/2! + x^4/4! - x^6/6! + x^8/8!`.
pub open spec fn spec_cos_taylor(x: int) -> int {
    let x2 = spec_mul(x, x);
    let x4 = spec_mul(x2, x2);
    let x6 = spec_mul(x4, x2);
    let x8 = spec_mul(x6, x2);
    spec_add(
        spec_sub(
            spec_add(spec_sub(ONE as int, spec_div(x2, 131072)), spec_div(x4, 1572864)),
            spec_div(x6, 47185920),
        ),
        spec_div(x8, 2642411520),
    )
}

/// What the fixed-point sine returns: reduce into `[-π, π]`, fold into
/// `[-π/2, π/2]` by symmetry, then the series.
pub open spec fn spec_sin(x: int) -> int {
    let y = spec_reduce_pi(x);
    let z = if y > HALF_PI_FP as int {
        spec_sub(PI_FP as int, y)
    } else if y < -(HALF_PI_FP as int) {
        spec_sub(-(PI_FP as int), y)
    } else {
        y
    };
    spec_sin_taylor(z)
}

/// What the fixed-point cosine returns: reduce into `[-π, π]`, fold the
/// absolute value into `[0, π/2]` by symmetry, then the series.
pub open spec fn spec_cos(x: int) -> int {
    let y = spec_reduce_pi(x);
    let a = if y < 0 { -y } else { y };
    if a > HALF_PI_FP as int {
        spec_neg(spec_cos_taylor(spec_sub(PI_FP as int, a)))
    } else {
        spec_cos_taylor(a)
    }
}

/// The sine of an angle in radians, for angles within one turn.
pub fn sin_fp(x: i64) -> (r: i64)
    requires
        -(TWO_PI_FP as int) <= x as int <= TWO_PI_FP as int,
    ensures
        r as int == spec_sin(x as int),
        in_fp(r as int),
{
    let y: i64 = if x > PI_FP {
        fp_sub(x, TWO_PI_FP)
    } else if x < -PI_FP {
        fp_add(x, TWO_PI_FP)
    } else {
        x
    };
    let z: i64 = if y > HALF_PI_FP {
        fp_sub(PI_FP, y)
    } else if y < -HALF_PI_FP {
        fp_sub(-PI_FP, y)
    } else {
        y
    };
    sin_taylor(z)
}

/// The cosine of an angle in radians, for angles within one turn.
pub fn cos_fp(x: i64) -> (r: i64)
    requires
        -(TWO_PI_FP as int) <= x as int <= TWO_PI_FP as int,
    ensures
        r as int == spec_cos(x as int),
        in_fp(r as int),
{
    let y: i64 = if x > PI_FP {
        fp_sub(x, TWO_PI_FP)
    } else if x < -PI_FP {
        fp_add(x, TWO_PI_FP)
    } else {
        x
    };
    let a: i64 = if y < 0 { -y } else { y };
    if a > HALF_PI_FP {
        fp_neg(cos_taylor(fp_sub(PI_FP, a)))
    } else {
        cos_taylor(a)
    }
}

/// The sine series on the reduced range.
fn sin_taylor(x: i64) -> (r: i64)
    requires
        in_fp(x as int),
    ensures
        r as int == spec_sin_taylor(x as int),
        in_fp(r as int),
{
    let x2: i64 = fp_mul(x, x);
    let x3: i64 = fp_mul(x2, x);
    let x5: i64 = fp_mul(x3, x2);
    let x7: i64 = fp_mul(x5, x2);
    let x9: i64 = fp_mul(x7, x2);
    fp_add(
        fp_sub(
            fp_add(fp_sub(x, fp_div(x3, 393216)), fp_div(x5, 7864320)),
            fp_div(x7, 330301440),
        ),
        fp_div(x9, 23781703680),
    )
}

/// The cosine series on the reduced range.
fn cos_taylor(x: i64) -> (r: i64)
    requires
        in_fp(x as int),
    ensures
        r as int == spec_cos_taylor(x as int),
        in_fp(r as int),
{
    let x2: i64 = fp_mul(x, x);
    let x4: i64 = fp_mul(x2, x2);
    let x6: i64 = fp_mul(x4, x2);
    let x8: i64 = fp_mul(x6, x2);
    fp_add(
        fp_sub(
            fp_add(fp_sub(ONE, fp_div(x2, 131072)), fp_div(x4, 1572864)),
            fp_div(x6, 47185920),
        ),
        fp_div(x8, 2642411520),
    )
}

/// The series leave zero fixed: a zero angle has sine zero and cosine one.
pub proof fn lemma_trig_zero()
    ensures
        spec_sin(0) == 0,
        spec_cos(0) == ONE as int,
{
    assert(spec_mul(0, 0) == 0);
    assert(spec_sin_taylor(0) == 0);
    assert(spec_cos_taylor(0) == ONE as int);
}

} // verus!
