//! Parallelogram patches, intersected by a plane solve followed by a
//! closed interior test in the patch's own planar coordinates.

use vstd::prelude::*;
use crate::aabb::{Aabb, aabb_wf, spec_from_points, spec_box_union};
use crate::fixed::{fp_sub, fp_div, in_fp, spec_sub, spec_div, ONE};
use crate::hittable::{HitRecord, hr_wf, spec_set_face, Hittable};
use crate::hittable_list::HittableList;
use crate::interval::{Interval, interval_wf, spec_contains};
use crate::material::{Material, material_wf};
use crate::ray::{Ray, ray_wf, spec_ray_at};
use crate::vec3::{Vec3, vec_wf, spec_vadd, spec_vsub, spec_vneg, spec_dot, spec_cross, spec_vnormalize};

verus! {

/// A parallelogram: an origin corner `q`, two edge vectors `u` and `v`,
/// the plane they span (unit `normal` and offset `d`), the un-scaled
/// plane cross vector `w` with its squared length `nn` (the planar
/// coordinates divide by `nn` only at the end, which keeps the quotient
/// within fixed-point resolution), the surface material and the
/// bounding box of the four vertices.
#[derive(Clone, Copy, PartialEq, Eq, Structural, Debug)]
pub struct Quad {
    pub q: Vec3,
    pub u: Vec3,
    pub v: Vec3,
    pub w: Vec3,
    pub nn: i64,
    pub mat: Material,
    pub bbox: Aabb,
    pub normal: Vec3,
    pub d: i64,
}

/// All fields within the representable range.
pub open spec fn quad_wf(qd: Quad) -> bool {
    vec_wf(qd.q) && vec_wf(qd.u) && vec_wf(qd.v) && vec_wf(qd.w) && in_fp(qd.nn as int)
        && material_wf(qd.mat) && aabb_wf(qd.bbox) && vec_wf(qd.normal) && in_fp(qd.d as int)
}

/// Whether planar coordinates land inside the closed unit square.
pub open spec fn spec_is_interior(alpha: int, beta: int) -> bool {
    0 <= alpha <= ONE as int && 0 <= beta <= ONE as int
}

/// What hitting a parallelogram returns: reject rays parallel to the
/// plane, solve for the plane crossing, reject a crossing outside the
/// closed range, then accept exactly the crossings whose planar
/// coordinates lie in the closed unit square.
#[verifier::opaque]
pub open spec fn spec_quad_hit(qd: Quad, r: Ray, ray_t: Interval, rec: HitRecord) -> Option<HitRecord> {
    let denom = spec_dot(qd.normal, r.dir);
    if denom == 0 {
        Option::None
    } else {
        let t = spec_div(spec_sub(qd.d as int, spec_dot(qd.normal, r.orig)), denom);
        if !spec_contains(ray_t, t) {
            Option::None
        } else {
            let intersection = spec_ray_at(r, t);
            let planar = spec_vsub(intersection, qd.q);
            let alpha = spec_div(spec_dot(qd.w, spec_cross(planar, qd.v)), qd.nn as int);
            let beta = spec_div(spec_dot(qd.w, spec_cross(qd.u, planar)), qd.nn as int);
            if !spec_is_interior(alpha, beta) {
                Option::None
            } else {
                Option::Some(spec_set_face(
                    HitRecord {
                        p: intersection,
                        t: t as i64,
                        mat: qd.mat,
                        u: alpha as i64,
                        v: beta as i64,
                        ..rec
                    },
                    r,
                    qd.normal,
                ))
            }
        }
    }
}

/// The parallelogram record the constructor assembles from a corner,
/// two edges and a material: the plane data, the cross vector with its
/// squared length, and the box over the two diagonal corner pairs.
#[verifier::opaque]
pub open spec fn spec_make_quad(q: Vec3, u: Vec3, v: Vec3, mat: Material) -> Quad {
    let n = spec_cross(u, v);
    Quad {
        q,
        u,
        v,
        w: n,
        nn: spec_dot(n, n) as i64,
        mat,
        bbox: spec_box_union(
            spec_from_points(q, spec_vadd(spec_vadd(q, u), v)),
            spec_from_points(spec_vadd(q, u), spec_vadd(q, v)),
        ),
        normal: spec_vnormalize(n),
        d: spec_dot(spec_vnormalize(n), q) as i64,
    }
}

impl Quad {
    /// A parallelogram from a corner and two edges: precompute the plane
    /// normal and offset, the cross vector and its squared length, and
    /// the box spanning the two diagonal corner pairs.
    pub fn new(q: Vec3, u: Vec3, v: Vec3, mat: Material) -> (r: Quad)
        requires
            vec_wf(q),
            vec_wf(u),
            vec_wf(v),
            material_wf(mat),
        ensures
            r == spec_make_quad(q, u, v, mat),
            quad_wf(r),
    {
        proof {
            reveal(spec_make_quad);
        }
        let n: Vec3 = u.cross(&v);
        let normal: Vec3 = n.normalize();
        let d: i64 = normal.dot(&q);
        let nn: i64 = n.dot(&n);

        let mut bbox_diagonal1: Aabb = Aabb::new();
        bbox_diagonal1.aabb(&q, &q.add(&u).add(&v));
        let mut bbox_diagonal2: Aabb = Aabb::new();
        bbox_diagonal2.aabb(&q.add(&u), &q.add(&v));
        let bbox: Aabb = Aabb::aabb_from_boxes(&bbox_diagonal1, &bbox_diagonal2);

        Quad { q, u, v, w: n, nn, mat, bbox, normal, d }
    }

    /// Whether planar coordinates land inside the closed unit square;
    /// when they do, store them in the record's texture slots. The
    /// boundary itself is accepted: zero and one are interior.
    pub fn is_interior(alpha: i64, beta: i64, rec: &mut HitRecord) -> (res: bool)
        requires
            in_fp(alpha as int),
            in_fp(beta as int),
            hr_wf(*old(rec)),
        ensures
            res == spec_is_interior(alpha as int, beta as int),
            *final(rec) == if res {
                HitRecord { u: alpha, v: beta, ..*old(rec) }
            } else {
                *old(rec)
            },
            hr_wf(*final(rec)),
    {
        let unit_interval: Interval = Interval::new(0, ONE);
        if !unit_interval.contains(alpha) || !unit_interval.contains(beta) {
            return false;
        }

        rec.u = alpha;
        rec.v = beta;
        true
    }

    /// Test the ray against the parallelogram within the closed
    /// parameter range; on a hit, fill the record, including the planar
    /// coordinates of the hit point.
    pub fn hit(&self, r: &Ray, ray_t: Interval, rec: &mut HitRecord) -> (res: bool)
        requires
            quad_wf(*self),
            ray_wf(*r),
            interval_wf(ray_t),
            hr_wf(*old(rec)),
        ensures
            hr_wf(*final(rec)),
            match spec_quad_hit(*self, *r, ray_t, *old(rec)) {
                Option::Some(nr) => res && *final(rec) == nr,
                Option::None => !res && *final(rec) == *old(rec),
            },
    {
        proof {
            reveal(spec_quad_hit);
        }
        let denom: i64 = self.normal.dot(r.direction());

        // A direction below the fixed-point resolution of the plane
        // equation counts as parallel.
        if denom == 0 {
            return false;
        }

        let t: i64 = fp_div(fp_sub(self.d, self.normal.dot(r.origin())), denom);
        if !ray_t.contains(t) {
            return false;
        }

        let intersection: Vec3 = r.at(t);

        let planar_hit_vector: Vec3 = intersection.sub(&self.q);
        let alpha: i64 = fp_div(self.w.dot(&planar_hit_vector.cross(&self.v)), self.nn);
        let beta: i64 = fp_div(self.w.dot(&self.u.cross(&planar_hit_vector)), self.nn);

        if !Quad::is_interior(alpha, beta, rec) {
            return false;
        }

        rec.t = t;
        rec.p = intersection;
        rec.mat = self.mat;
        rec.set_face_normal(r, self.normal);
        true
    }

    /// The precomputed bounding box.
    pub fn bounding_box(&self) -> (r: &Aabb)
        ensures
            *r == self.bbox,
    {
        &self.bbox
    }
}

/// The componentwise smaller of two corners.
pub open spec fn spec_corner_lo(a: Vec3, b: Vec3) -> Vec3 {
    Vec3 {
        x: if a.x <= b.x { a.x } else { b.x },
        y: if a.y <= b.y { a.y } else { b.y },
        z: if a.z <= b.z { a.z } else { b.z },
    }
}

/// The componentwise larger of two corners.
pub open spec fn spec_corner_hi(a: Vec3, b: Vec3) -> Vec3 {
    Vec3 {
        x: if a.x >= b.x { a.x } else { b.x },
        y: if a.y >= b.y { a.y } else { b.y },
        z: if a.z >= b.z { a.z } else { b.z },
    }
}

/// The six faces of the axis-aligned box two opposite corners span, in
/// a fixed order: front, right, back, left, top, bottom. The corners
/// are sorted componentwise first, so either corner order describes
/// the same six faces.
pub open spec fn spec_box_faces(a: Vec3, b: Vec3, mat: Material) -> Seq<Hittable> {
    let lo = spec_corner_lo(a, b);
    let hi = spec_corner_hi(a, b);
    let dx = Vec3 { x: spec_sub(hi.x as int, lo.x as int) as i64, y: 0i64, z: 0i64 };
    let dy = Vec3 { x: 0i64, y: spec_sub(hi.y as int, lo.y as int) as i64, z: 0i64 };
    let dz = Vec3 { x: 0i64, y: 0i64, z: spec_sub(hi.z as int, lo.z as int) as i64 };
    seq![
        Hittable::Quad(spec_make_quad(Vec3 { x: lo.x, y: lo.y, z: hi.z }, dx, dy, mat)),
        Hittable::Quad(spec_make_quad(Vec3 { x: hi.x, y: lo.y, z: hi.z }, spec_vneg(dz), dy, mat)),
        Hittable::Quad(spec_make_quad(Vec3 { x: hi.x, y: lo.y, z: lo.z }, spec_vneg(dx), dy, mat)),
        Hittable::Quad(spec_make_quad(Vec3 { x: lo.x, y: lo.y, z: lo.z }, dz, dy, mat)),
        Hittable::Quad(spec_make_quad(Vec3 { x: lo.x, y: hi.y, z: hi.z }, dx, spec_vneg(dz), mat)),
        Hittable::Quad(spec_make_quad(Vec3 { x: lo.x, y: lo.y, z: lo.z }, dx, dz, mat)),
    ]
}

/// Either corner order yields the very same six faces.
pub proof fn lemma_box_faces_symmetric(a: Vec3, b: Vec3, mat: Material)
    ensures
        spec_box_faces(a, b, mat) == spec_box_faces(b, a, mat),
{
    assert(spec_corner_lo(a, b) == spec_corner_lo(b, a));
    assert(spec_corner_hi(a, b) == spec_corner_hi(b, a));
    assert(spec_box_faces(a, b, mat) =~= spec_box_faces(b, a, mat));
}

/// The closed box spanning two opposite corners, as six parallelogram
/// faces sharing one material.
pub fn box_(a: Vec3, b: Vec3, mat: Material) -> (r: Hittable)
    requires
        vec_wf(a),
        vec_wf(b),
        material_wf(mat),
    ensures
        crate::hittable::hittable_wf(r),
        r matches Hittable::List(hl) && hl.objects@ == spec_box_faces(a, b, mat),
{
    let mut sides: HittableList = HittableList::new();

    let lo: Vec3 = Vec3::new(
        crate::fixed::fp_min(a.x, b.x),
        crate::fixed::fp_min(a.y, b.y),
        crate::fixed::fp_min(a.z, b.z),
    );
    let hi: Vec3 = Vec3::new(
        crate::fixed::fp_max(a.x, b.x),
        crate::fixed::fp_max(a.y, b.y),
        crate::fixed::fp_max(a.z, b.z),
    );

    let dx: Vec3 = Vec3::new(fp_sub(hi.x, lo.x), 0, 0);
    let dy: Vec3 = Vec3::new(0, fp_sub(hi.y, lo.y), 0);
    let dz: Vec3 = Vec3::new(0, 0, fp_sub(hi.z, lo.z));

    sides.add(Hittable::Quad(Quad::new(Vec3::new(lo.x, lo.y, hi.z), dx, dy, mat))); // front
    sides.add(Hittable::Quad(Quad::new(Vec3::new(hi.x, lo.y, hi.z), dz.neg(), dy, mat))); // right
    sides.add(Hittable::Quad(Quad::new(Vec3::new(hi.x, lo.y, lo.z), dx.neg(), dy, mat))); // back
    sides.add(Hittable::Quad(Quad::new(Vec3::new(lo.x, lo.y, lo.z), dz, dy, mat))); // left
    sides.add(Hittable::Quad(Quad::new(Vec3::new(lo.x, hi.y, hi.z), dx, dz.neg(), mat))); // top
    sides.add(Hittable::Quad(Quad::new(Vec3::new(lo.x, lo.y, lo.z), dx, dz, mat))); // bottom

    proof {
        assert(sides.objects@ =~= spec_box_faces(a, b, mat));
    }
    Hittable::List(sides)
}

} // verus!
