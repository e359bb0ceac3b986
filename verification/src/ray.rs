//! Rays: an origin plus a direction, evaluated parametrically.

use vstd::prelude::*;
use crate::vec3::{Vec3, vec_wf, spec_vadd, spec_vscale};
use crate::fixed::in_fp;

verus! {

/// A half-line through `orig` along `dir`, sampled as `orig + t * dir`.
#[derive(Clone, Copy, PartialEq, Eq, Structural, Debug)]
pub struct Ray {
    pub orig: Vec3,
    pub dir: Vec3,
}

/// Origin and direction within the representable range.
pub open spec fn ray_wf(r: Ray) -> bool {
    vec_wf(r.orig) && vec_wf(r.dir)
}

/// What evaluating the ray at parameter `t` returns.
pub open spec fn spec_ray_at(r: Ray, t: int) -> Vec3 {
    spec_vadd(r.orig, spec_vscale(r.dir, t))
}

impl Ray {
    /// A ray from an origin and a direction.
    pub fn new(orig: Vec3, dir: Vec3) -> (r: Ray)
        ensures
            r == (Ray { orig, dir }),
    {
        Ray { orig, dir }
    }

    /// The ray's origin.
    pub fn origin(&self) -> (r: &Vec3)
        ensures
            *r == self.orig,
    {
        &self.orig
    }

    /// The ray's direction.
    pub fn direction(&self) -> (r: &Vec3)
        ensures
            *r == self.dir,
    {
        &self.dir
    }

    /// The point at parameter `t` along the ray.
    pub fn at(&self, t: i64) -> (r: Vec3)
        requires
            ray_wf(*self),
            in_fp(t as int),
        ensures
            r == spec_ray_at(*self, t as int),
            vec_wf(r),
    {
        self.orig.add(&self.dir.scale(t))
    }
}

} // verus!
