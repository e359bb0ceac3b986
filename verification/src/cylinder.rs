//! Finite right circular cylinders, axis-aligned to the vertical axis.
//! The lateral surface and the two end caps are tested independently;
//! when more than one part intersects, the record keeps the part tested
//! last, not the nearest — callers that need nearest-only semantics
//! must not rely on the order of the three parts.

use vstd::prelude::*;
use crate::aabb::{Aabb, aabb_wf, spec_from_points};
use crate::fixed::{fp_add, fp_sub, fp_neg, fp_mul, fp_div, fp_sqrt, in_fp, spec_add, spec_sub, spec_neg, spec_mul, spec_div, spec_sqrt, ONE};
use crate::hittable::{HitRecord, hr_wf, spec_set_face};
use crate::interval::{Interval, interval_wf, spec_surrounds};
use crate::material::{Material, material_wf};
use crate::ray::{Ray, ray_wf, spec_ray_at};
use crate::vec3::{Vec3, vec_wf, spec_vsub, spec_vnormalize};

verus! {

/// A cylinder: the center of its base disk, its height upward, its
/// radius, the surface material, and the box that bounds it.
#[derive(Clone, Copy, PartialEq, Eq, Structural, Debug)]
pub struct Cylinder {
    pub base_center: Vec3,
    pub height: i64,
    pub radius: i64,
    pub mat: Material,
    pub bbox: Aabb,
}

/// All fields within the representable range.
pub open spec fn cylinder_wf(c: Cylinder) -> bool {
    vec_wf(c.base_center) && in_fp(c.height as int) && in_fp(c.radius as int)
        && material_wf(c.mat) && aabb_wf(c.bbox)
}

/// The record a stage leaves behind: the new one on a hit, the previous
/// one otherwise.
pub open spec fn spec_stage_rec(o: Option<HitRecord>, prev: HitRecord) -> HitRecord {
    match o {
        Option::Some(nr) => nr,
        Option::None => prev,
    }
}

/// What testing the lateral surface returns: the in-plane quadratic,
/// the nearer admissible root first, accepted only at heights between
/// the two caps.
pub open spec fn spec_cyl_lateral(c: Cylinder, r: Ray, ray_t: Interval, prev: HitRecord) -> Option<HitRecord> {
    let oc = spec_vsub(r.orig, c.base_center);
    let a = spec_add(spec_mul(r.dir.x as int, r.dir.x as int), spec_mul(r.dir.z as int, r.dir.z as int));
    let bh = spec_add(spec_mul(oc.x as int, r.dir.x as int), spec_mul(oc.z as int, r.dir.z as int));
    let b = spec_add(bh, bh);
    let cc = spec_sub(
        spec_add(spec_mul(oc.x as int, oc.x as int), spec_mul(oc.z as int, oc.z as int)),
        spec_mul(c.radius as int, c.radius as int),
    );
    let m = spec_mul(a, cc);
    let disc = spec_sub(spec_mul(b, b), spec_add(spec_add(m, m), spec_add(m, m)));
    if disc < 0 {
        Option::None
    } else {
        let sq = spec_sqrt(disc);
        let two_a = spec_add(a, a);
        let root1 = spec_div(spec_sub(spec_neg(b), sq), two_a);
        let root2 = spec_div(spec_add(spec_neg(b), sq), two_a);
        let root = if spec_surrounds(ray_t, root1) {
            root1
        } else {
            root2
        };
        if !spec_surrounds(ray_t, root) {
            Option::None
        } else {
            let hp = spec_ray_at(r, root);
            if c.base_center.y as int <= hp.y as int
                && hp.y as int <= spec_add(c.base_center.y as int, c.height as int) {
                let outward = spec_vnormalize(Vec3 {
                    x: spec_sub(hp.x as int, c.base_center.x as int) as i64,
                    y: 0i64,
                    z: spec_sub(hp.z as int, c.base_center.z as int) as i64,
                });
                Option::Some(spec_set_face(
                    HitRecord { p: hp, normal: outward, t: root as i64, mat: c.mat, ..prev },
                    r,
                    outward,
                ))
            } else {
                Option::None
            }
        }
    }
}

/// What testing one end cap returns: the plane crossing at the cap's
/// height, accepted within the cap's radius.
pub open spec fn spec_cyl_cap(c: Cylinder, r: Ray, ray_t: Interval, prev: HitRecord, cap_y: int, outward: Vec3) -> Option<HitRecord> {
    let t = spec_div(spec_sub(cap_y, r.orig.y as int), r.dir.y as int);
    if !spec_surrounds(ray_t, t) {
        Option::None
    } else {
        let hp = spec_ray_at(r, t);
        let dx = spec_sub(hp.x as int, c.base_center.x as int);
        let dz = spec_sub(hp.z as int, c.base_center.z as int);
        let dist2 = spec_add(spec_mul(dx, dx), spec_mul(dz, dz));
        if dist2 <= spec_mul(c.radius as int, c.radius as int) {
            Option::Some(spec_set_face(
                HitRecord { p: hp, normal: outward, t: t as i64, mat: c.mat, ..prev },
                r,
                outward,
            ))
        } else {
            Option::None
        }
    }
}

/// What hitting the whole cylinder returns: the three parts in order —
/// lateral surface, bottom cap, top cap — each overwriting the record,
/// so the last part that hits is the one reported.
#[verifier::opaque]
pub open spec fn spec_cylinder_hit(c: Cylinder, r: Ray, ray_t: Interval, rec: HitRecord) -> Option<HitRecord> {
    let s1 = spec_cyl_lateral(c, r, ray_t, rec);
    let r1 = spec_stage_rec(s1, rec);
    let s2 = spec_cyl_cap(c, r, ray_t, r1, c.base_center.y as int, Vec3 { x: 0i64, y: -65536i64, z: 0i64 });
    let r2 = spec_stage_rec(s2, r1);
    let s3 = spec_cyl_cap(
        c, r, ray_t, r2,
        spec_add(c.base_center.y as int, c.height as int),
        Vec3 { x: 0i64, y: 65536i64, z: 0i64 },
    );
    if s1 is Some || s2 is Some || s3 is Some {
        Option::Some(spec_stage_rec(s3, r2))
    } else {
        Option::None
    }
}

impl Cylinder {
    /// A cylinder over the given base, height and radius; the bounding
    /// box spans one radius around the base disk up to the top cap.
    pub fn new(base_center: Vec3, height: i64, radius: i64, mat: Material) -> (r: Cylinder)
        requires
            vec_wf(base_center),
            in_fp(height as int),
            in_fp(radius as int),
            material_wf(mat),
        ensures
            r.base_center == base_center,
            r.height == height,
            r.radius == radius,
            r.mat == mat,
            r.bbox == spec_from_points(
                Vec3 {
                    x: spec_sub(base_center.x as int, radius as int) as i64,
                    y: base_center.y,
                    z: spec_sub(base_center.z as int, radius as int) as i64,
                },
                Vec3 {
                    x: spec_add(base_center.x as int, radius as int) as i64,
                    y: spec_add(base_center.y as int, height as int) as i64,
                    z: spec_add(base_center.z as int, radius as int) as i64,
                },
            ),
            cylinder_wf(r),
    {
        let mut bbox: Aabb = Aabb::new();
        bbox.aabb(
            &Vec3::new(fp_sub(base_center.x, radius), base_center.y, fp_sub(base_center.z, radius)),
            &Vec3::new(
                fp_add(base_center.x, radius),
                fp_add(base_center.y, height),
                fp_add(base_center.z, radius),
            ),
        );

        Cylinder { base_center, height, radius, mat, bbox }
    }

    /// Test the ray against the lateral surface and both caps; the
    /// record reflects the last of the three parts that hit.
    pub fn hit(&self, r: &Ray, ray_t: Interval, rec: &mut HitRecord) -> (res: bool)
        requires
            cylinder_wf(*self),
            ray_wf(*r),
            interval_wf(ray_t),
            hr_wf(*old(rec)),
        ensures
            hr_wf(*final(rec)),
            match spec_cylinder_hit(*self, *r, ray_t, *old(rec)) {
                Option::Some(nr) => res && *final(rec) == nr,
                Option::None => !res && *final(rec) == *old(rec),
            },
    {
        proof {
            reveal(spec_cylinder_hit);
        }
        let oc: Vec3 = r.origin().sub(&self.base_center);
        let a: i64 = fp_add(
            fp_mul(r.direction().x, r.direction().x),
            fp_mul(r.direction().z, r.direction().z),
        );
        let bh: i64 = fp_add(
            fp_mul(oc.x, r.direction().x),
            fp_mul(oc.z, r.direction().z),
        );
        let b: i64 = fp_add(bh, bh);
        let c: i64 = fp_sub(
            fp_add(fp_mul(oc.x, oc.x), fp_mul(oc.z, oc.z)),
            fp_mul(self.radius, self.radius),
        );
        let m: i64 = fp_mul(a, c);
        let discriminant: i64 = fp_sub(fp_mul(b, b), fp_add(fp_add(m, m), fp_add(m, m)));

        let mut hit_anything: bool = false;

        // The lateral surface.
        if discriminant >= 0 {
            let sqrt_discriminant: i64 = fp_sqrt(discriminant);
            let two_a: i64 = fp_add(a, a);
            let mut root: i64 = fp_div(fp_sub(fp_neg(b), sqrt_discriminant), two_a);
            if !ray_t.surrounds(root) {
                root = fp_div(fp_add(fp_neg(b), sqrt_discriminant), two_a);
            }
            if ray_t.surrounds(root) {
                let hit_point: Vec3 = r.at(root);
                if hit_point.y >= self.base_center.y
                    && hit_point.y <= fp_add(self.base_center.y, self.height) {
                    rec.t = root;
                    rec.p = hit_point;
                    let outward: Vec3 = Vec3::new(
                        fp_sub(rec.p.x, self.base_center.x),
                        0,
                        fp_sub(rec.p.z, self.base_center.z),
                    ).normalize();
                    rec.normal = outward;
                    rec.set_face_normal(r, outward);
                    rec.mat = self.mat;
                    hit_anything = true;
                }
            }
        }

        // The bottom cap.
        let t_bottom: i64 = fp_div(fp_sub(self.base_center.y, r.origin().y), r.direction().y);
        if ray_t.surrounds(t_bottom) {
            let hit_point: Vec3 = r.at(t_bottom);
            let dxc: i64 = fp_sub(hit_point.x, self.base_center.x);
            let dzc: i64 = fp_sub(hit_point.z, self.base_center.z);
            let dist2: i64 = fp_add(fp_mul(dxc, dxc), fp_mul(dzc, dzc));
            if dist2 <= fp_mul(self.radius, self.radius) {
                rec.t = t_bottom;
                rec.p = hit_point;
                let outward: Vec3 = Vec3::new(0, -ONE, 0);
                rec.normal = outward;
                rec.set_face_normal(r, outward);
                rec.mat = self.mat;
                hit_anything = true;
            }
        }

        // The top cap.
        let t_top: i64 = fp_div(
            fp_sub(fp_add(self.base_center.y, self.height), r.origin().y),
            r.direction().y,
        );
        if ray_t.surrounds(t_top) {
            let hit_point: Vec3 = r.at(t_top);
            let dxc: i64 = fp_sub(hit_point.x, self.base_center.x);
            let dzc: i64 = fp_sub(hit_point.z, self.base_center.z);
            let dist2: i64 = fp_add(fp_mul(dxc, dxc), fp_mul(dzc, dzc));
            if dist2 <= fp_mul(self.radius, self.radius) {
                rec.t = t_top;
                rec.p = hit_point;
                let outward: Vec3 = Vec3::new(0, ONE, 0);
                rec.normal = outward;
                rec.set_face_normal(r, outward);
                rec.mat = self.mat;
                hit_anything = true;
            }
        }

        hit_anything
    }

    /// The precomputed bounding box.
    pub fn bounding_box(&self) -> (r: &Aabb)
        ensures
            *r == self.bbox,
    {
        &self.bbox
    }
}

} // verus!
