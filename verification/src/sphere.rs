//! Spheres, intersected by the reduced-discriminant quadratic solve.

use vstd::prelude::*;
use crate::aabb::{Aabb, aabb_wf, spec_from_points};
use crate::fixed::{fp_add, fp_sub, fp_mul, fp_div, fp_sqrt, fp_max, in_fp, spec_add, spec_sub, spec_mul, spec_div, spec_sqrt};
use crate::hittable::{HitRecord, hr_wf, spec_set_face};
use crate::interval::{Interval, interval_wf, spec_surrounds};
use crate::material::{Material, material_wf};
use crate::ray::{Ray, ray_wf, spec_ray_at};
use crate::vec3::{Vec3, vec_wf, spec_vadd, spec_vsub, spec_vdiv, spec_dot};

verus! {

/// A sphere: a center, a radius, the material of its surface, and the
/// box that bounds it.
#[derive(Clone, Copy, PartialEq, Eq, Structural, Debug)]
pub struct Sphere {
    pub center: Vec3,
    pub radius: i64,
    pub mat: Material,
    pub bbox: Aabb,
}

/// All fields within the representable range; the radius never negative.
pub open spec fn sphere_wf(s: Sphere) -> bool {
    vec_wf(s.center) && in_fp(s.radius as int) && s.radius >= 0 && material_wf(s.mat)
        && aabb_wf(s.bbox)
}

/// What hitting a sphere returns: solve the reduced quadratic
/// `|d|^2 t^2 - 2 h t + c`, try the nearer root first, fall back to the
/// farther one, and reject when neither lies strictly inside the range.
#[verifier::opaque]
pub open spec fn spec_sphere_hit(s: Sphere, r: Ray, ray_t: Interval, rec: HitRecord) -> Option<HitRecord> {
    let oc = spec_vsub(s.center, r.orig);
    let a = spec_dot(r.dir, r.dir);
    let h = spec_dot(r.dir, oc);
    let c = spec_sub(spec_dot(oc, oc), spec_mul(s.radius as int, s.radius as int));
    let disc = spec_sub(spec_mul(h, h), spec_mul(a, c));
    if disc < 0 {
        Option::None
    } else {
        let sq = spec_sqrt(disc);
        let root1 = spec_div(spec_sub(h, sq), a);
        let root2 = spec_div(spec_add(h, sq), a);
        let root = if spec_surrounds(ray_t, root1) {
            root1
        } else {
            root2
        };
        if !spec_surrounds(ray_t, root) {
            Option::None
        } else {
            let p = spec_ray_at(r, root);
            let outward = spec_vdiv(spec_vsub(p, s.center), s.radius as int);
            Option::Some(spec_set_face(
                HitRecord { p, normal: outward, t: root as i64, mat: s.mat, ..rec },
                r,
                outward,
            ))
        }
    }
}

impl Sphere {
    /// A sphere over the given center and radius; a negative radius is
    /// stored as zero, and the bounding box spans the corners one radius
    /// away from the center in every direction.
    pub fn new(center: Vec3, radius: i64, mat: Material) -> (r: Sphere)
        requires
            vec_wf(center),
            in_fp(radius as int),
            material_wf(mat),
        ensures
            r.center == center,
            r.radius == if radius >= 0 { radius } else { 0i64 },
            r.mat == mat,
            r.bbox == spec_from_points(
                spec_vsub(center, Vec3 { x: radius, y: radius, z: radius }),
                spec_vadd(center, Vec3 { x: radius, y: radius, z: radius }),
            ),
            sphere_wf(r),
    {
        let rvec: Vec3 = Vec3::new(radius, radius, radius);
        let mut bbox: Aabb = Aabb::new();
        bbox.aabb(&center.sub(&rvec), &center.add(&rvec));
        Sphere { center, radius: fp_max(radius, 0), mat, bbox }
    }

    /// Test the ray against the sphere within the open parameter range;
    /// on a hit, fill the record with the nearer admissible root.
    pub fn hit(&self, r: &Ray, ray_t: Interval, rec: &mut HitRecord) -> (res: bool)
        requires
            sphere_wf(*self),
            ray_wf(*r),
            interval_wf(ray_t),
            hr_wf(*old(rec)),
        ensures
            hr_wf(*final(rec)),
            match spec_sphere_hit(*self, *r, ray_t, *old(rec)) {
                Option::Some(nr) => res && *final(rec) == nr,
                Option::None => !res && *final(rec) == *old(rec),
            },
    {
        proof {
            reveal(spec_sphere_hit);
        }
        let oc: Vec3 = self.center.sub(r.origin());
        let a: i64 = r.direction().norm_squared();
        let h: i64 = r.direction().dot(&oc);
        let c: i64 = fp_sub(oc.norm_squared(), fp_mul(self.radius, self.radius));
        let discriminant: i64 = fp_sub(fp_mul(h, h), fp_mul(a, c));

        if discriminant < 0 {
            return false;
        }

        let sqrt_discriminant: i64 = fp_sqrt(discriminant);

        let mut root: i64 = fp_div(fp_sub(h, sqrt_discriminant), a);
        if !ray_t.surrounds(root) {
            root = fp_div(fp_add(h, sqrt_discriminant), a);
            if !ray_t.surrounds(root) {
                return false;
            }
        }

        rec.t = root;
        rec.p = r.at(root);
        let outward: Vec3 = rec.p.sub(&self.center).div(self.radius);
        rec.normal = outward;
        rec.set_face_normal(r, outward);
        rec.mat = self.mat;

        true
    }

    /// The precomputed bounding box.
    pub fn bounding_box(&self) -> (r: &Aabb)
        ensures
            *r == self.bbox,
    {
        &self.bbox
    }
}

} // verus!
