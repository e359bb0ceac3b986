//! Fixed-point scalar arithmetic.
//!
//! Every coordinate, distance and colour channel in this crate is a signed
//! 64-bit fixed-point number with `ONE` (2^16) as the unit. Arithmetic
//! saturates at `FP_MAX` instead of wrapping, so all operations are total;
//! `FP_MAX` also serves as the "infinite" endpoint of unbounded intervals.

use vstd::prelude::*;

verus! {

/// The fixed-point unit: the representation of the real number 1.
pub const ONE: i64 = 65536;

/// Half of the fixed-point unit: the representation of 0.5.
pub const HALF: i64 = 32768;

/// Saturation bound of all arithmetic, and the "infinity" of intervals.
pub const FP_MAX: i64 = 1152921504606846976; // 2^60

/// A value within the saturation bound.
pub open spec fn in_fp(x: int) -> bool {
    -(FP_MAX as int) <= x <= FP_MAX as int
}

/// Saturate an unbounded result into the representable range.
pub open spec fn clip(x: int) -> int {
    if x > FP_MAX as int {
        FP_MAX as int
    } else if x < -(FP_MAX as int) {
        -(FP_MAX as int)
    } else {
        x
    }
}

/// Division truncated toward zero (the machine convention), for b > 0.
pub open spec fn tdiv(a: int, b: int) -> int {
    if a >= 0 {
        a / b
    } else {
        -((-a) / b)
    }
}

/// What saturating addition returns.
pub open spec fn spec_add(a: int, b: int) -> int {
    clip(a + b)
}

/// What saturating subtraction returns.
pub open spec fn spec_sub(a: int, b: int) -> int {
    clip(a - b)
}

/// What negation returns.
pub open spec fn spec_neg(a: int) -> int {
    clip(-a)
}

/// What saturating fixed-point multiplication returns:
/// the exact product scaled down by `ONE`, truncated toward zero.
pub open spec fn spec_mul(a: int, b: int) -> int {
    clip(tdiv(a * b, ONE as int))
}

/// What saturating fixed-point division returns. A zero divisor saturates
/// with the sign of the dividend, standing in for an infinite quotient.
pub open spec fn spec_div(a: int, b: int) -> int {
    if b == 0 {
        if a > 0 {
            FP_MAX as int
        } else if a < 0 {
            -(FP_MAX as int)
        } else {
            0
        }
    } else if b > 0 {
        clip(tdiv(a * (ONE as int), b))
    } else {
        clip(tdiv(-(a * (ONE as int)), -b))
    }
}

/// The integer square root: the unique r >= 0 with r*r <= n < (r+1)*(r+1).
pub open spec fn spec_isqrt(n: int) -> int {
    choose|r: int| 0 <= r && #[trigger] (r * r) <= n && n < (r + 1) * (r + 1)
}

/// What the fixed-point square root returns: zero on nonpositive input,
/// else the integer square root of the value rescaled by `ONE`.
pub open spec fn spec_sqrt(a: int) -> int {
    if a <= 0 {
        0
    } else {
        spec_isqrt(a * (ONE as int))
    }
}

/// The integer square root is unique.
pub proof fn lemma_isqrt_unique(n: int, r1: int, r2: int)
    requires
        0 <= r1,
        r1 * r1 <= n,
        n < (r1 + 1) * (r1 + 1),
        0 <= r2,
        r2 * r2 <= n,
        n < (r2 + 1) * (r2 + 1),
    ensures
        r1 == r2,
{
    assert(r1 == r2) by (nonlinear_arith)
        requires
            0 <= r1,
            r1 * r1 <= n,
            n < (r1 + 1) * (r1 + 1),
            0 <= r2,
            r2 * r2 <= n,
            n < (r2 + 1) * (r2 + 1),
    ;
}

/// Saturating addition.
pub fn fp_add(a: i64, b: i64) -> (r: i64)
    requires
        in_fp(a as int),
        in_fp(b as int),
    ensures
        r as int == spec_add(a as int, b as int),
        in_fp(r as int),
{
    let s: i128 = a as i128 + b as i128;
    if s > FP_MAX as i128 {
        FP_MAX
    } else if s < -(FP_MAX as i128) {
        -FP_MAX
    } else {
        s as i64
    }
}

/// Saturating subtraction.
pub fn fp_sub(a: i64, b: i64) -> (r: i64)
    requires
        in_fp(a as int),
        in_fp(b as int),
    ensures
        r as int == spec_sub(a as int, b as int),
        in_fp(r as int),
{
    let s: i128 = a as i128 - b as i128;
    if s > FP_MAX as i128 {
        FP_MAX
    } else if s < -(FP_MAX as i128) {
        -FP_MAX
    } else {
        s as i64
    }
}

/// Negation.
pub fn fp_neg(a: i64) -> (r: i64)
    requires
        in_fp(a as int),
    ensures
        r as int == spec_neg(a as int),
        in_fp(r as int),
{
    -a
}

/// Saturating fixed-point multiplication.
pub fn fp_mul(a: i64, b: i64) -> (r: i64)
    requires
        in_fp(a as int),
        in_fp(b as int),
    ensures
        r as int == spec_mul(a as int, b as int),
        in_fp(r as int),
{
    let neg: bool = (a < 0) != (b < 0);
    let ma: u128 = if a < 0 { (-a) as u128 } else { a as u128 };
    let mb: u128 = if b < 0 { (-b) as u128 } else { b as u128 };
    proof {
        assert((ma as int) * (mb as int) <= (FP_MAX as int) * (FP_MAX as int)) by (nonlinear_arith)
            requires
                0 <= ma as int <= FP_MAX as int,
                0 <= mb as int <= FP_MAX as int,
        ;
        assert((a as int) * (b as int) == if neg {
            -((ma as int) * (mb as int))
        } else {
            (ma as int) * (mb as int)
        }) by (nonlinear_arith)
            requires
                neg == ((a < 0) != (b < 0)),
                ma as int == if a < 0 { -(a as int) } else { a as int },
                mb as int == if b < 0 { -(b as int) } else { b as int },
        ;
    }
    let p: u128 = ma * mb;
    let q: u128 = p / 65536;
    let qc: i64 = if q > FP_MAX as u128 { FP_MAX } else { q as i64 };
    proof {
        let ab: int = (a as int) * (b as int);
        assert(tdiv(ab, ONE as int) == if neg && q != 0 { -(q as int) } else { q as int });
        assert(clip(tdiv(ab, ONE as int)) == if neg { -(qc as int) } else { qc as int });
    }
    if neg {
        -qc
    } else {
        qc
    }
}

/// Saturating fixed-point division; a zero divisor saturates with the
/// sign of the dividend.
pub fn fp_div(a: i64, b: i64) -> (r: i64)
    requires
        in_fp(a as int),
        in_fp(b as int),
    ensures
        r as int == spec_div(a as int, b as int),
        in_fp(r as int),
{
    if b == 0 {
        if a > 0 {
            FP_MAX
        } else if a < 0 {
            -FP_MAX
        } else {
            0
        }
    } else {
        let neg: bool = (a < 0) != (b < 0);
        let ma: u128 = if a < 0 { (-a) as u128 } else { a as u128 };
        let mb: u128 = if b < 0 { (-b) as u128 } else { b as u128 };
        proof {
            assert((ma as int) * 65536 <= (FP_MAX as int) * 65536) by (nonlinear_arith)
                requires
                    0 <= ma as int <= FP_MAX as int,
            ;
            assert((a as int) * (ONE as int) == if a < 0 {
                -((ma as int) * 65536)
            } else {
                (ma as int) * 65536
            }) by (nonlinear_arith)
                requires
                    ma as int == if a < 0 { -(a as int) } else { a as int },
            ;
        }
        let q: u128 = (ma * 65536) / mb;
        let qc: i64 = if q > FP_MAX as u128 { FP_MAX } else { q as i64 };
        proof {
            let an: int = (a as int) * (ONE as int);
            if b > 0 {
                assert(tdiv(an, b as int) == if a < 0 && q != 0 { -(q as int) } else { q as int });
                assert(spec_div(a as int, b as int) == clip(tdiv(an, b as int)));
            } else {
                assert(tdiv(-an, -(b as int)) == if a < 0 && q != 0 { q as int } else if q != 0 { -(q as int) } else { 0 });
                assert(spec_div(a as int, b as int) == clip(tdiv(-an, -(b as int))));
            }
        }
        if neg {
            -qc
        } else {
            qc
        }
    }
}

/// Integer square root of an unsigned wide value below 2^80.
fn isqrt_u128(n: u128) -> (r: u128)
    requires
        n < 0x100000000000000000000,
    ensures
        r * r <= n < (r + 1) * (r + 1),
{
    let mut lo: u128 = 0;
    let mut hi: u128 = 0x10000000000; // 2^40
    proof {
        assert((0x10000000000 as int) * (0x10000000000 as int) > n) by (nonlinear_arith)
            requires
                n < 0x100000000000000000000,
        ;
    }
    while lo + 1 < hi
        invariant
            lo < hi,
            hi <= 0x10000000000,
            lo * lo <= n,
            n < hi * hi,
        decreases hi - lo,
    {
        let mid: u128 = lo + (hi - lo) / 2;
        proof {
            assert((mid as int) * (mid as int) <= 0x10000000000 * 0x10000000000) by (nonlinear_arith)
                requires
                    0 <= mid as int <= 0x10000000000,
            ;
        }
        if mid * mid <= n {
            lo = mid;
        } else {
            hi = mid;
        }
    }
    lo
}

/// Saturating fixed-point square root: zero on nonpositive input.
pub fn fp_sqrt(a: i64) -> (r: i64)
    requires
        in_fp(a as int),
    ensures
        r as int == spec_sqrt(a as int),
        in_fp(r as int),
        r >= 0,
{
    if a <= 0 {
        0
    } else {
        let n: u128 = (a as u128) * 65536;
        proof {
            assert(n < 0x100000000000000000000) by (nonlinear_arith)
                requires
                    n == (a as int) * 65536,
                    0 < a as int <= FP_MAX as int,
            ;
        }
        let r: u128 = isqrt_u128(n);
        proof {
            assert(r < 0x10000000000) by (nonlinear_arith)
                requires
                    r * r <= n,
                    n < 0x100000000000000000000,
            ;
            let s: int = spec_isqrt(n as int);
            assert(0 <= s && s * s <= n as int && (n as int) < (s + 1) * (s + 1)) by {
                assert(0 <= r as int && (r as int) * (r as int) <= n as int
                    && (n as int) < (r as int + 1) * (r as int + 1));
            }
            lemma_isqrt_unique(n as int, r as int, s);
        }
        r as i64
    }
}

/// The smaller of two values.
pub fn fp_min(a: i64, b: i64) -> (r: i64)
    ensures
        r == if a <= b { a } else { b },
{
    if a <= b {
        a
    } else {
        b
    }
}

/// The larger of two values.
pub fn fp_max(a: i64, b: i64) -> (r: i64)
    ensures
        r == if a >= b { a } else { b },
{
    if a >= b {
        a
    } else {
        b
    }
}

/// The absolute value, saturated.
pub fn fp_abs(a: i64) -> (r: i64)
    requires
        in_fp(a as int),
    ensures
        r as int == if a < 0 { -(a as int) } else { a as int },
        in_fp(r as int),
        r >= 0,
{
    if a < 0 {
        -a
    } else {
        a
    }
}

/// A bound on the dividend gives the matching bound on the truncated
/// quotient.
pub proof fn lemma_tdiv_bound(a: int, b: int, c: int)
    requires
        0 < b,
        0 <= c,
        -(c * b) <= a <= c * b,
    ensures
        -c <= tdiv(a, b) <= c,
{
    vstd::arithmetic::div_mod::lemma_div_multiples_vanish(c, b);
    assert(b * c == c * b) by (nonlinear_arith);
    if a >= 0 {
        vstd::arithmetic::div_mod::lemma_div_is_ordered(a, c * b, b);
        vstd::arithmetic::div_mod::lemma_div_pos_is_pos(a, b);
    } else {
        vstd::arithmetic::div_mod::lemma_div_is_ordered(-a, c * b, b);
        vstd::arithmetic::div_mod::lemma_div_pos_is_pos(-a, b);
    }
}

/// Multiplying by the fixed-point unit is the identity.
pub proof fn lemma_mul_one(a: int)
    requires
        in_fp(a),
    ensures
        spec_mul(a, ONE as int) == a,
        spec_mul(ONE as int, a) == a,
{
    assert(tdiv(a * 65536, 65536) == a) by (nonlinear_arith);
    assert(a * 65536 == 65536 * a) by (nonlinear_arith);
}

/// Multiplying by zero gives zero.
pub proof fn lemma_mul_zero(a: int)
    ensures
        spec_mul(a, 0) == 0,
        spec_mul(0, a) == 0,
{
    assert(a * 0 == 0) by (nonlinear_arith);
    assert(0 * a == 0) by (nonlinear_arith);
}

} // verus!
