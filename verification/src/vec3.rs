//! Three-component vectors and points over the fixed-point scalar.

use vstd::prelude::*;
use crate::fixed::{
    fp_add, fp_sub, fp_neg, fp_mul, fp_div, fp_sqrt, fp_min, in_fp,
    spec_add, spec_sub, spec_neg, spec_mul, spec_div, spec_sqrt, ONE, HALF,
};
use crate::rng::{RandomSource, std_rng_next};
use crate::{random_double, random_double_range, spec_range_draw, spec_unit_draw};

verus! {

/// A vector (or point) with fixed-point components.
#[derive(Clone, Copy, PartialEq, Eq, Structural, Debug)]
pub struct Vec3 {
    pub x: i64,
    pub y: i64,
    pub z: i64,
}

/// All components within the representable range.
pub open spec fn vec_wf(v: Vec3) -> bool {
    in_fp(v.x as int) && in_fp(v.y as int) && in_fp(v.z as int)
}

/// What componentwise addition returns.
pub open spec fn spec_vadd(a: Vec3, b: Vec3) -> Vec3 {
    Vec3 {
        x: spec_add(a.x as int, b.x as int) as i64,
        y: spec_add(a.y as int, b.y as int) as i64,
        z: spec_add(a.z as int, b.z as int) as i64,
    }
}

/// What componentwise subtraction returns.
pub open spec fn spec_vsub(a: Vec3, b: Vec3) -> Vec3 {
    Vec3 {
        x: spec_sub(a.x as int, b.x as int) as i64,
        y: spec_sub(a.y as int, b.y as int) as i64,
        z: spec_sub(a.z as int, b.z as int) as i64,
    }
}

/// What componentwise negation returns.
pub open spec fn spec_vneg(a: Vec3) -> Vec3 {
    Vec3 {
        x: spec_neg(a.x as int) as i64,
        y: spec_neg(a.y as int) as i64,
        z: spec_neg(a.z as int) as i64,
    }
}

/// What scaling by a fixed-point factor returns.
pub open spec fn spec_vscale(a: Vec3, k: int) -> Vec3 {
    Vec3 {
        x: spec_mul(a.x as int, k) as i64,
        y: spec_mul(a.y as int, k) as i64,
        z: spec_mul(a.z as int, k) as i64,
    }
}

/// What dividing every component by a fixed-point scalar returns.
pub open spec fn spec_vdiv(a: Vec3, k: int) -> Vec3 {
    Vec3 {
        x: spec_div(a.x as int, k) as i64,
        y: spec_div(a.y as int, k) as i64,
        z: spec_div(a.z as int, k) as i64,
    }
}

/// What the dot product returns.
pub open spec fn spec_dot(a: Vec3, b: Vec3) -> int {
    spec_add(
        spec_add(spec_mul(a.x as int, b.x as int), spec_mul(a.y as int, b.y as int)),
        spec_mul(a.z as int, b.z as int),
    )
}

/// What the cross product returns.
pub open spec fn spec_cross(a: Vec3, b: Vec3) -> Vec3 {
    Vec3 {
        x: spec_sub(spec_mul(a.y as int, b.z as int), spec_mul(a.z as int, b.y as int)) as i64,
        y: spec_sub(spec_mul(a.z as int, b.x as int), spec_mul(a.x as int, b.z as int)) as i64,
        z: spec_sub(spec_mul(a.x as int, b.y as int), spec_mul(a.y as int, b.x as int)) as i64,
    }
}

/// What componentwise multiplication returns.
pub open spec fn spec_vcompmul(a: Vec3, b: Vec3) -> Vec3 {
    Vec3 {
        x: spec_mul(a.x as int, b.x as int) as i64,
        y: spec_mul(a.y as int, b.y as int) as i64,
        z: spec_mul(a.z as int, b.z as int) as i64,
    }
}

/// What division of every component by the vector's own length returns.
pub open spec fn spec_vnormalize(a: Vec3) -> Vec3 {
    Vec3 {
        x: spec_div(a.x as int, spec_sqrt(spec_dot(a, a))) as i64,
        y: spec_div(a.y as int, spec_sqrt(spec_dot(a, a))) as i64,
        z: spec_div(a.z as int, spec_sqrt(spec_dot(a, a))) as i64,
    }
}

impl Vec3 {
    /// A vector from three components.
    pub fn new(x: i64, y: i64, z: i64) -> (r: Vec3)
        ensures
            r == (Vec3 { x, y, z }),
    {
        Vec3 { x, y, z }
    }

    /// The zero vector.
    pub fn zero() -> (r: Vec3)
        ensures
            r == (Vec3 { x: 0i64, y: 0i64, z: 0i64 }),
            vec_wf(r),
    {
        Vec3 { x: 0, y: 0, z: 0 }
    }

    /// Componentwise sum.
    pub fn add(&self, o: &Vec3) -> (r: Vec3)
        requires
            vec_wf(*self),
            vec_wf(*o),
        ensures
            r == spec_vadd(*self, *o),
            vec_wf(r),
    {
        Vec3 {
            x: fp_add(self.x, o.x),
            y: fp_add(self.y, o.y),
            z: fp_add(self.z, o.z),
        }
    }

    /// Componentwise difference.
    pub fn sub(&self, o: &Vec3) -> (r: Vec3)
        requires
            vec_wf(*self),
            vec_wf(*o),
        ensures
            r == spec_vsub(*self, *o),
            vec_wf(r),
    {
        Vec3 {
            x: fp_sub(self.x, o.x),
            y: fp_sub(self.y, o.y),
            z: fp_sub(self.z, o.z),
        }
    }

    /// Componentwise negation.
    pub fn neg(&self) -> (r: Vec3)
        requires
            vec_wf(*self),
        ensures
            r == spec_vneg(*self),
            vec_wf(r),
    {
        Vec3 {
            x: fp_neg(self.x),
            y: fp_neg(self.y),
            z: fp_neg(self.z),
        }
    }

    /// Every component multiplied by a fixed-point factor.
    pub fn scale(&self, k: i64) -> (r: Vec3)
        requires
            vec_wf(*self),
            in_fp(k as int),
        ensures
            r == spec_vscale(*self, k as int),
            vec_wf(r),
    {
        Vec3 {
            x: fp_mul(self.x, k),
            y: fp_mul(self.y, k),
            z: fp_mul(self.z, k),
        }
    }

    /// Every component divided by a fixed-point scalar.
    pub fn div(&self, k: i64) -> (r: Vec3)
        requires
            vec_wf(*self),
            in_fp(k as int),
        ensures
            r == spec_vdiv(*self, k as int),
            vec_wf(r),
    {
        Vec3 {
            x: fp_div(self.x, k),
            y: fp_div(self.y, k),
            z: fp_div(self.z, k),
        }
    }

    /// The dot product.
    pub fn dot(&self, o: &Vec3) -> (r: i64)
        requires
            vec_wf(*self),
            vec_wf(*o),
        ensures
            r as int == spec_dot(*self, *o),
            in_fp(r as int),
    {
        fp_add(
            fp_add(fp_mul(self.x, o.x), fp_mul(self.y, o.y)),
            fp_mul(self.z, o.z),
        )
    }

    /// The cross product.
    pub fn cross(&self, o: &Vec3) -> (r: Vec3)
        requires
            vec_wf(*self),
            vec_wf(*o),
        ensures
            r == spec_cross(*self, *o),
            vec_wf(r),
    {
        Vec3 {
            x: fp_sub(fp_mul(self.y, o.z), fp_mul(self.z, o.y)),
            y: fp_sub(fp_mul(self.z, o.x), fp_mul(self.x, o.z)),
            z: fp_sub(fp_mul(self.x, o.y), fp_mul(self.y, o.x)),
        }
    }

    /// Componentwise product.
    pub fn component_mul(&self, o: &Vec3) -> (r: Vec3)
        requires
            vec_wf(*self),
            vec_wf(*o),
        ensures
            r == spec_vcompmul(*self, *o),
            vec_wf(r),
    {
        Vec3 {
            x: fp_mul(self.x, o.x),
            y: fp_mul(self.y, o.y),
            z: fp_mul(self.z, o.z),
        }
    }

    /// The squared length.
    pub fn norm_squared(&self) -> (r: i64)
        requires
            vec_wf(*self),
        ensures
            r as int == spec_dot(*self, *self),
            in_fp(r as int),
    {
        self.dot(self)
    }

    /// Every component divided by the vector's length.
    pub fn normalize(&self) -> (r: Vec3)
        requires
            vec_wf(*self),
        ensures
            r == spec_vnormalize(*self),
            vec_wf(r),
    {
        let n: i64 = fp_sqrt(self.norm_squared());
        Vec3 {
            x: fp_div(self.x, n),
            y: fp_div(self.y, n),
            z: fp_div(self.z, n),
        }
    }
}

/// The squared length of the rejection fallback lies strictly inside
/// the unit ball.
proof fn lemma_half_dot()
    ensures
        spec_dot(Vec3 { x: 32768i64, y: 0i64, z: 0i64 }, Vec3 { x: 32768i64, y: 0i64, z: 0i64 }) == 16384,
{
    assert(32768 * 32768 == 1073741824int) by (nonlinear_arith);
    assert(crate::fixed::tdiv(1073741824, 65536) == 16384);
    assert(0 * 0 == 0int) by (nonlinear_arith);
    assert(crate::fixed::tdiv(0, 65536) == 0);
}

/// The test every scattering routine uses to reject a degenerate direction.
pub trait Vector3Ext {
    /// Whether this value counts as too close to zero to be a direction.
    spec fn near_zero_spec(&self) -> bool;

    /// Decide `near_zero_spec`.
    fn near_zero(&self) -> (r: bool)
        ensures
            r == self.near_zero_spec(),
    ;
}

impl Vector3Ext for Vec3 {
    /// Below the fixed-point resolution in every component means zero exactly.
    open spec fn near_zero_spec(&self) -> bool {
        self.x == 0 && self.y == 0 && self.z == 0
    }

    fn near_zero(&self) -> (r: bool)
        ensures
            r == self.near_zero_spec(),
    {
        self.x == 0 && self.y == 0 && self.z == 0
    }
}

/// What reflecting a direction about a surface normal returns.
pub open spec fn spec_reflect(v: Vec3, n: Vec3) -> Vec3 {
    spec_vsub(v, spec_vscale(n, spec_add(spec_dot(v, n), spec_dot(v, n))))
}

/// Reflect a direction about a surface normal.
pub fn reflect(v: &Vec3, n: &Vec3) -> (r: Vec3)
    requires
        vec_wf(*v),
        vec_wf(*n),
    ensures
        r == spec_reflect(*v, *n),
        vec_wf(r),
{
    let d: i64 = v.dot(n);
    v.sub(&n.scale(fp_add(d, d)))
}

/// What refracting a unit direction through a surface with the given
/// index ratio returns, following Snell's law.
pub open spec fn spec_refract(uv: Vec3, n: Vec3, etai_over_etat: int) -> Vec3 {
    let cos_theta = if spec_dot(spec_vneg(uv), n) <= ONE as int {
        spec_dot(spec_vneg(uv), n)
    } else {
        ONE as int
    };
    let r_out_perp = spec_vscale(spec_vadd(uv, spec_vscale(n, cos_theta)), etai_over_etat);
    let k = spec_sub(ONE as int, spec_dot(r_out_perp, r_out_perp));
    let abs_k = if k < 0 { -k } else { k };
    spec_vadd(r_out_perp, spec_vscale(n, spec_neg(spec_sqrt(abs_k))))
}

/// A vector of three unit-range draws, one component per draw in order.
pub fn random(rng: &mut RandomSource) -> (r: Vec3)
    ensures
        final(rng)@.0 == old(rng)@.0,
        final(rng)@.1 == old(rng)@.1 + 3,
        r.x as int == spec_unit_draw(std_rng_next(old(rng)@.0, old(rng)@.1)),
        r.y as int == spec_unit_draw(std_rng_next(old(rng)@.0, old(rng)@.1 + 1)),
        r.z as int == spec_unit_draw(std_rng_next(old(rng)@.0, old(rng)@.1 + 2)),
        vec_wf(r),
{
    let x: i64 = random_double(rng);
    let y: i64 = random_double(rng);
    let z: i64 = random_double(rng);
    Vec3 { x, y, z }
}

/// A vector of three draws from `[min, max)`, one component per draw.
pub fn random_with_limits(rng: &mut RandomSource, min: i64, max: i64) -> (r: Vec3)
    requires
        in_fp(min as int),
        in_fp(max as int),
    ensures
        final(rng)@.0 == old(rng)@.0,
        final(rng)@.1 == old(rng)@.1 + 3,
        r.x as int == spec_range_draw(min as int, max as int, spec_unit_draw(std_rng_next(old(rng)@.0, old(rng)@.1))),
        r.y as int == spec_range_draw(min as int, max as int, spec_unit_draw(std_rng_next(old(rng)@.0, old(rng)@.1 + 1))),
        r.z as int == spec_range_draw(min as int, max as int, spec_unit_draw(std_rng_next(old(rng)@.0, old(rng)@.1 + 2))),
        vec_wf(r),
{
    let x: i64 = random_double_range(rng, min, max);
    let y: i64 = random_double_range(rng, min, max);
    let z: i64 = random_double_range(rng, min, max);
    Vec3 { x, y, z }
}

/// One candidate of the unit-ball rejection sampler: three consecutive
/// draws stretched into `[-1, 1)`, one per component.
pub open spec fn spec_ball_candidate(seed: u64, idx: nat) -> Vec3 {
    Vec3 {
        x: spec_range_draw(-(ONE as int), ONE as int, spec_unit_draw(std_rng_next(seed, idx))) as i64,
        y: spec_range_draw(-(ONE as int), ONE as int, spec_unit_draw(std_rng_next(seed, (idx + 1) as nat))) as i64,
        z: spec_range_draw(-(ONE as int), ONE as int, spec_unit_draw(std_rng_next(seed, (idx + 2) as nat))) as i64,
    }
}

/// What the unit-ball rejection sampler returns and where it leaves the
/// stream: candidates of three draws each until one lies strictly
/// between zero and unit length, a fixed interior fallback once the
/// try budget is spent.
pub open spec fn spec_ball_sample(seed: u64, idx: nat, tries: nat) -> (Vec3, nat)
    decreases tries,
{
    if tries == 0 {
        (Vec3 { x: HALF, y: 0i64, z: 0i64 }, idx)
    } else {
        let p = spec_ball_candidate(seed, idx);
        if 0 < spec_dot(p, p) < ONE as int {
            (p, (idx + 3) as nat)
        } else {
            spec_ball_sample(seed, (idx + 3) as nat, (tries - 1) as nat)
        }
    }
}

/// A nonzero vector strictly inside the unit ball, found by rejection
/// sampling. The number of draws varies; after a bounded number of
/// rejections a fixed interior fallback is returned instead, so the
/// result always lies strictly between zero and unit length.
pub fn random_in_unit_sphere(rng: &mut RandomSource) -> (r: Vec3)
    ensures
        final(rng)@.0 == old(rng)@.0,
        (r, final(rng)@.1) == spec_ball_sample(old(rng)@.0, old(rng)@.1, 64),
        0 < spec_dot(r, r) < ONE as int,
        vec_wf(r),
{
    let mut tries: u64 = 64;
    while tries > 0
        invariant
            rng@.0 == old(rng)@.0,
            tries <= 64,
            spec_ball_sample(old(rng)@.0, old(rng)@.1, 64)
                == spec_ball_sample(rng@.0, rng@.1, tries as nat),
        decreases tries,
    {
        let ghost idx0 = rng@.1;
        let p: Vec3 = random_with_limits(rng, -ONE, ONE);
        let n: i64 = p.norm_squared();
        proof {
            assert(p == spec_ball_candidate(rng@.0, idx0));
            assert(spec_ball_sample(rng@.0, idx0, tries as nat) == if 0 < spec_dot(p, p) < ONE as int {
                (p, (idx0 + 3) as nat)
            } else {
                spec_ball_sample(rng@.0, (idx0 + 3) as nat, (tries - 1) as nat)
            });
        }
        if 0 < n && n < ONE {
            return p;
        }
        tries = tries - 1;
    }
    let fallback: Vec3 = Vec3 { x: HALF, y: 0, z: 0 };
    proof {
        lemma_half_dot();
        assert(spec_dot(fallback, fallback) == 16384);
    }
    fallback
}

/// What the unit-direction sampler returns and where it leaves the
/// stream: the accepted ball point scaled by the inverse of its length.
pub open spec fn spec_unit_sample(seed: u64, idx: nat) -> (Vec3, nat) {
    let s = spec_ball_sample(seed, idx, 64);
    (spec_vnormalize(s.0), s.1)
}

/// A direction of roughly unit length: a rejection-sampled interior
/// vector scaled by the inverse of its own length.
pub fn random_unit_vector(rng: &mut RandomSource) -> (r: Vec3)
    ensures
        final(rng)@.0 == old(rng)@.0,
        (r, final(rng)@.1) == spec_unit_sample(old(rng)@.0, old(rng)@.1),
        vec_wf(r),
{
    let p: Vec3 = random_in_unit_sphere(rng);
    p.normalize()
}

/// What the hemisphere sampler returns and where it leaves the stream:
/// the sampled unit direction, negated when it points away from the
/// given normal.
pub open spec fn spec_hemisphere_sample(seed: u64, idx: nat, normal: Vec3) -> (Vec3, nat) {
    let u = spec_unit_sample(seed, idx);
    if spec_dot(u.0, normal) > 0 {
        u
    } else {
        (spec_vneg(u.0), u.1)
    }
}

/// A random unit-length direction on the side of the surface the given
/// normal points to.
pub fn random_on_hemisphere(rng: &mut RandomSource, normal: &Vec3) -> (r: Vec3)
    requires
        vec_wf(*normal),
    ensures
        final(rng)@.0 == old(rng)@.0,
        (r, final(rng)@.1) == spec_hemisphere_sample(old(rng)@.0, old(rng)@.1, *normal),
        vec_wf(r),
{
    let on_unit_sphere: Vec3 = random_unit_vector(rng);
    if on_unit_sphere.dot(normal) > 0 {
        on_unit_sphere
    } else {
        on_unit_sphere.neg()
    }
}

/// One candidate of the unit-disk rejection sampler: two consecutive
/// draws stretched into `[-1, 1)`, third component zero.
pub open spec fn spec_disk_candidate(seed: u64, idx: nat) -> Vec3 {
    Vec3 {
        x: spec_range_draw(-(ONE as int), ONE as int, spec_unit_draw(std_rng_next(seed, idx))) as i64,
        y: spec_range_draw(-(ONE as int), ONE as int, spec_unit_draw(std_rng_next(seed, (idx + 1) as nat))) as i64,
        z: 0i64,
    }
}

/// What the unit-disk rejection sampler returns and where it leaves the
/// stream, with the same try budget and fallback as the unit ball.
pub open spec fn spec_disk_sample(seed: u64, idx: nat, tries: nat) -> (Vec3, nat)
    decreases tries,
{
    if tries == 0 {
        (Vec3 { x: HALF, y: 0i64, z: 0i64 }, idx)
    } else {
        let p = spec_disk_candidate(seed, idx);
        if 0 < spec_dot(p, p) < ONE as int {
            (p, (idx + 2) as nat)
        } else {
            spec_disk_sample(seed, (idx + 2) as nat, (tries - 1) as nat)
        }
    }
}

/// A nonzero point strictly inside the unit disk of the first two axes,
/// found by rejection sampling with the same bounded fallback as the
/// unit ball.
pub fn random_in_unit_disk(rng: &mut RandomSource) -> (r: Vec3)
    ensures
        final(rng)@.0 == old(rng)@.0,
        (r, final(rng)@.1) == spec_disk_sample(old(rng)@.0, old(rng)@.1, 64),
        0 < spec_dot(r, r) < ONE as int,
        r.z == 0,
        vec_wf(r),
{
    let mut tries: u64 = 64;
    while tries > 0
        invariant
            rng@.0 == old(rng)@.0,
            tries <= 64,
            spec_disk_sample(old(rng)@.0, old(rng)@.1, 64)
                == spec_disk_sample(rng@.0, rng@.1, tries as nat),
        decreases tries,
    {
        let ghost idx0 = rng@.1;
        let x: i64 = random_double_range(rng, -ONE, ONE);
        let y: i64 = random_double_range(rng, -ONE, ONE);
        let p: Vec3 = Vec3 { x, y, z: 0 };
        let n: i64 = p.norm_squared();
        proof {
            assert(p == spec_disk_candidate(rng@.0, idx0));
            assert(spec_disk_sample(rng@.0, idx0, tries as nat) == if 0 < spec_dot(p, p) < ONE as int {
                (p, (idx0 + 2) as nat)
            } else {
                spec_disk_sample(rng@.0, (idx0 + 2) as nat, (tries - 1) as nat)
            });
        }
        if 0 < n && n < ONE {
            return p;
        }
        tries = tries - 1;
    }
    let fallback: Vec3 = Vec3 { x: HALF, y: 0, z: 0 };
    proof {
        lemma_half_dot();
        assert(spec_dot(fallback, fallback) == 16384);
    }
    fallback
}

/// Refract a unit direction through a surface with the given index ratio.
pub fn refract(uv: &Vec3, n: &Vec3, etai_over_etat: i64) -> (r: Vec3)
    requires
        vec_wf(*uv),
        vec_wf(*n),
        in_fp(etai_over_etat as int),
    ensures
        r == spec_refract(*uv, *n, etai_over_etat as int),
        vec_wf(r),
{
    let cos_theta: i64 = fp_min(uv.neg().dot(n), ONE);
    let r_out_perp: Vec3 = uv.add(&n.scale(cos_theta)).scale(etai_over_etat);
    let k: i64 = fp_sub(ONE, r_out_perp.dot(&r_out_perp));
    let abs_k: i64 = if k < 0 { -k } else { k };
    let r_out_parallel: Vec3 = n.scale(fp_neg(fp_sqrt(abs_k)));
    r_out_perp.add(&r_out_parallel)
}

} // verus!
