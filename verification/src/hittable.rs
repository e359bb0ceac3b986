//! The hit-testing protocol: the record a successful intersection fills,
//! the closed set of objects a ray can be tested against, and the
//! decorator wrappers that transform rays into object space and results
//! back into world space.

use vstd::prelude::*;
use crate::aabb::{Aabb, aabb_wf};
use crate::bvh::{BVHNode, bvh_wf, spec_bvh_node_hit};
use crate::cylinder::{Cylinder, cylinder_wf, spec_cylinder_hit};
use crate::fixed::{fp_add, fp_sub, fp_mul, in_fp, spec_add, spec_sub, spec_mul, FP_MAX, ONE};
use crate::hittable_list::{HittableList, spec_list_hit};
use crate::interval::{Interval, interval_wf};
use crate::material::{DefaultMaterial, Material, material_wf};
use crate::quad::{Quad, quad_wf, spec_quad_hit};
use crate::ray::{Ray, ray_wf};
use crate::sphere::{Sphere, sphere_wf, spec_sphere_hit};
use crate::trig::{cos_fp, sin_fp, spec_cos, spec_sin};
use crate::vec3::{Vec3, vec_wf, spec_vadd, spec_vsub, spec_vneg, spec_dot};
use crate::{degrees_to_radians, spec_deg2rad};

verus! {

/// The output slot of a hit test: where the ray struck, the outward
/// normal oriented against it, the parametric distance, the texture
/// coordinates, and the material struck.
#[derive(Clone, Copy, PartialEq, Eq, Structural, Debug)]
pub struct HitRecord {
    pub p: Vec3,
    pub normal: Vec3,
    pub t: i64,
    pub front_face: bool,
    pub mat: Material,
    pub u: i64,
    pub v: i64,
}

/// All numeric fields within the representable range.
pub open spec fn hr_wf(rec: HitRecord) -> bool {
    vec_wf(rec.p) && vec_wf(rec.normal) && in_fp(rec.t as int) && in_fp(rec.u as int)
        && in_fp(rec.v as int) && material_wf(rec.mat)
}

/// Whether the ray meets the surface from the side its outward normal
/// points to.
pub open spec fn spec_face_front(r: Ray, outward: Vec3) -> bool {
    spec_dot(r.dir, outward) < 0
}

/// The record after orienting the normal against the incoming ray.
pub open spec fn spec_set_face(rec: HitRecord, r: Ray, outward: Vec3) -> HitRecord {
    HitRecord {
        front_face: spec_face_front(r, outward),
        normal: if spec_face_front(r, outward) {
            outward
        } else {
            spec_vneg(outward)
        },
        ..rec
    }
}

impl HitRecord {
    /// The record before any hit: everything zero, absorbing material.
    pub open spec fn spec_default() -> HitRecord {
        HitRecord {
            p: Vec3 { x: 0i64, y: 0i64, z: 0i64 },
            normal: Vec3 { x: 0i64, y: 0i64, z: 0i64 },
            t: 0i64,
            front_face: false,
            mat: Material::Default(DefaultMaterial),
            u: 0i64,
            v: 0i64,
        }
    }

    /// A fresh record before any hit.
    pub fn default() -> (r: HitRecord)
        ensures
            r == HitRecord::spec_default(),
            hr_wf(r),
    {
        HitRecord {
            p: Vec3::zero(),
            normal: Vec3::zero(),
            t: 0,
            front_face: false,
            mat: Material::Default(DefaultMaterial::new()),
            u: 0,
            v: 0,
        }
    }

    /// Orient the stored normal against the incoming ray: keep the
    /// outward normal if it opposes the ray, else flip it; record which.
    pub fn set_face_normal(&mut self, r: &Ray, outward_normal: Vec3)
        requires
            ray_wf(*r),
            vec_wf(outward_normal),
        ensures
            *final(self) == spec_set_face(*old(self), *r, outward_normal),
    {
        self.front_face = r.direction().dot(&outward_normal) < 0;
        self.normal = if self.front_face {
            outward_normal
        } else {
            outward_normal.neg()
        };
    }
}

/// An object shifted in space: rays move into object space by the
/// opposite offset, hit points move back out by it.
#[derive(Debug)]
pub struct Translate {
    pub object: Box<Hittable>,
    pub offset: Vec3,
    pub bbox: Aabb,
}

/// An object rotated about the first axis.
#[derive(Debug)]
pub struct RotateX {
    pub object: Box<Hittable>,
    pub sin_theta: i64,
    pub cos_theta: i64,
    pub bbox: Aabb,
}

/// An object rotated about the second axis.
#[derive(Debug)]
pub struct RotateY {
    pub object: Box<Hittable>,
    pub sin_theta: i64,
    pub cos_theta: i64,
    pub bbox: Aabb,
}

/// An object rotated about the third axis.
#[derive(Debug)]
pub struct RotateZ {
    pub object: Box<Hittable>,
    pub sin_theta: i64,
    pub cos_theta: i64,
    pub bbox: Aabb,
}

/// Everything a ray can be tested against: the primitives, the spatial
/// transforms, the flat list, and the bounding-volume tree.
#[derive(Debug)]
pub enum Hittable {
    Sphere(Sphere),
    Quad(Quad),
    Cylinder(Cylinder),
    Translate(Translate),
    RotateX(RotateX),
    RotateY(RotateY),
    RotateZ(RotateZ),
    List(HittableList),
    Bvh(BVHNode),
}

/// Every coordinate in the object tree within the representable range.
pub open spec fn hittable_wf(obj: Hittable) -> bool
    decreases obj,
{
    match obj {
        Hittable::Sphere(s) => sphere_wf(s),
        Hittable::Quad(q) => quad_wf(q),
        Hittable::Cylinder(c) => cylinder_wf(c),
        Hittable::Translate(t) => vec_wf(t.offset) && aabb_wf(t.bbox) && hittable_wf(*t.object),
        Hittable::RotateX(w) => in_fp(w.sin_theta as int) && in_fp(w.cos_theta as int)
            && aabb_wf(w.bbox) && hittable_wf(*w.object),
        Hittable::RotateY(w) => in_fp(w.sin_theta as int) && in_fp(w.cos_theta as int)
            && aabb_wf(w.bbox) && hittable_wf(*w.object),
        Hittable::RotateZ(w) => in_fp(w.sin_theta as int) && in_fp(w.cos_theta as int)
            && aabb_wf(w.bbox) && hittable_wf(*w.object),
        Hittable::List(hl) => aabb_wf(hl.bbox) && (forall|i: int|
            0 <= i < hl.objects@.len() ==> hittable_wf(#[trigger] hl.objects@[i])),
        Hittable::Bvh(node) => bvh_wf(node),
    }
}

/// A well-formed object's bounding box is well formed.
pub proof fn lemma_bbox_wf(obj: Hittable)
    requires
        hittable_wf(obj),
    ensures
        aabb_wf(spec_bbox(obj)),
{
    match obj {
        Hittable::Sphere(s) => assert(aabb_wf(s.bbox)),
        Hittable::Quad(q) => assert(aabb_wf(q.bbox)),
        Hittable::Cylinder(c) => assert(aabb_wf(c.bbox)),
        Hittable::Translate(t) => assert(aabb_wf(t.bbox)),
        Hittable::RotateX(w) => assert(aabb_wf(w.bbox)),
        Hittable::RotateY(w) => assert(aabb_wf(w.bbox)),
        Hittable::RotateZ(w) => assert(aabb_wf(w.bbox)),
        Hittable::List(hl) => assert(aabb_wf(hl.bbox)),
        Hittable::Bvh(node) => {
            reveal_with_fuel(hittable_wf, 2);
            assert(aabb_wf(node.bbox));
        },
    }
}

/// The precomputed bounding box of an object.
pub open spec fn spec_bbox(obj: Hittable) -> Aabb {
    match obj {
        Hittable::Sphere(s) => s.bbox,
        Hittable::Quad(q) => q.bbox,
        Hittable::Cylinder(c) => c.bbox,
        Hittable::Translate(t) => t.bbox,
        Hittable::RotateX(w) => w.bbox,
        Hittable::RotateY(w) => w.bbox,
        Hittable::RotateZ(w) => w.bbox,
        Hittable::List(hl) => hl.bbox,
        Hittable::Bvh(node) => node.bbox,
    }
}

/// A world-space point carried into the rotated object's frame.
pub open spec fn spec_rotx_to_object(s: int, c: int, v: Vec3) -> Vec3 {
    Vec3 {
        x: v.x,
        y: spec_sub(spec_mul(c, v.y as int), spec_mul(s, v.z as int)) as i64,
        z: spec_add(spec_mul(s, v.y as int), spec_mul(c, v.z as int)) as i64,
    }
}

/// An object-space point carried back into the world frame.
pub open spec fn spec_rotx_to_world(s: int, c: int, v: Vec3) -> Vec3 {
    Vec3 {
        x: v.x,
        y: spec_add(spec_mul(c, v.y as int), spec_mul(s, v.z as int)) as i64,
        z: spec_sub(spec_mul(c, v.z as int), spec_mul(s, v.y as int)) as i64,
    }
}

/// A world-space point carried into the rotated object's frame.
pub open spec fn spec_roty_to_object(s: int, c: int, v: Vec3) -> Vec3 {
    Vec3 {
        x: spec_sub(spec_mul(c, v.x as int), spec_mul(s, v.z as int)) as i64,
        y: v.y,
        z: spec_add(spec_mul(s, v.x as int), spec_mul(c, v.z as int)) as i64,
    }
}

/// An object-space point carried back into the world frame.
pub open spec fn spec_roty_to_world(s: int, c: int, v: Vec3) -> Vec3 {
    Vec3 {
        x: spec_add(spec_mul(c, v.x as int), spec_mul(s, v.z as int)) as i64,
        y: v.y,
        z: spec_sub(spec_mul(c, v.z as int), spec_mul(s, v.x as int)) as i64,
    }
}

/// A world-space point carried into the rotated object's frame.
pub open spec fn spec_rotz_to_object(s: int, c: int, v: Vec3) -> Vec3 {
    Vec3 {
        x: spec_sub(spec_mul(c, v.x as int), spec_mul(s, v.y as int)) as i64,
        y: spec_add(spec_mul(s, v.x as int), spec_mul(c, v.y as int)) as i64,
        z: v.z,
    }
}

/// An object-space point carried back into the world frame.
pub open spec fn spec_rotz_to_world(s: int, c: int, v: Vec3) -> Vec3 {
    Vec3 {
        x: spec_add(spec_mul(c, v.x as int), spec_mul(s, v.y as int)) as i64,
        y: spec_sub(spec_mul(c, v.y as int), spec_mul(s, v.x as int)) as i64,
        z: v.z,
    }
}

fn rotx_to_object(s: i64, c: i64, v: &Vec3) -> (r: Vec3)
    requires
        in_fp(s as int),
        in_fp(c as int),
        vec_wf(*v),
    ensures
        r == spec_rotx_to_object(s as int, c as int, *v),
        vec_wf(r),
{
    Vec3 {
        x: v.x,
        y: fp_sub(fp_mul(c, v.y), fp_mul(s, v.z)),
        z: fp_add(fp_mul(s, v.y), fp_mul(c, v.z)),
    }
}

fn rotx_to_world(s: i64, c: i64, v: &Vec3) -> (r: Vec3)
    requires
        in_fp(s as int),
        in_fp(c as int),
        vec_wf(*v),
    ensures
        r == spec_rotx_to_world(s as int, c as int, *v),
        vec_wf(r),
{
    Vec3 {
        x: v.x,
        y: fp_add(fp_mul(c, v.y), fp_mul(s, v.z)),
        z: fp_sub(fp_mul(c, v.z), fp_mul(s, v.y)),
    }
}

fn roty_to_object(s: i64, c: i64, v: &Vec3) -> (r: Vec3)
    requires
        in_fp(s as int),
        in_fp(c as int),
        vec_wf(*v),
    ensures
        r == spec_roty_to_object(s as int, c as int, *v),
        vec_wf(r),
{
    Vec3 {
        x: fp_sub(fp_mul(c, v.x), fp_mul(s, v.z)),
        y: v.y,
        z: fp_add(fp_mul(s, v.x), fp_mul(c, v.z)),
    }
}

fn roty_to_world(s: i64, c: i64, v: &Vec3) -> (r: Vec3)
    requires
        in_fp(s as int),
        in_fp(c as int),
        vec_wf(*v),
    ensures
        r == spec_roty_to_world(s as int, c as int, *v),
        vec_wf(r),
{
    Vec3 {
        x: fp_add(fp_mul(c, v.x), fp_mul(s, v.z)),
        y: v.y,
        z: fp_sub(fp_mul(c, v.z), fp_mul(s, v.x)),
    }
}

fn rotz_to_object(s: i64, c: i64, v: &Vec3) -> (r: Vec3)
    requires
        in_fp(s as int),
        in_fp(c as int),
        vec_wf(*v),
    ensures
        r == spec_rotz_to_object(s as int, c as int, *v),
        vec_wf(r),
{
    Vec3 {
        x: fp_sub(fp_mul(c, v.x), fp_mul(s, v.y)),
        y: fp_add(fp_mul(s, v.x), fp_mul(c, v.y)),
        z: v.z,
    }
}

fn rotz_to_world(s: i64, c: i64, v: &Vec3) -> (r: Vec3)
    requires
        in_fp(s as int),
        in_fp(c as int),
        vec_wf(*v),
    ensures
        r == spec_rotz_to_world(s as int, c as int, *v),
        vec_wf(r),
{
    Vec3 {
        x: fp_add(fp_mul(c, v.x), fp_mul(s, v.y)),
        y: fp_sub(fp_mul(c, v.y), fp_mul(s, v.x)),
        z: v.z,
    }
}

/// What hitting any object returns: `Some` of the filled record on an
/// intersection within the range, else `None` with the slot untouched.
pub open spec fn spec_hittable_hit(obj: Hittable, r: Ray, ray_t: Interval, rec: HitRecord) -> Option<HitRecord>
    decreases obj, obj, 0int,
{
    match obj {
        Hittable::Sphere(s) => spec_sphere_hit(s, r, ray_t, rec),
        Hittable::Quad(q) => spec_quad_hit(q, r, ray_t, rec),
        Hittable::Cylinder(c) => spec_cylinder_hit(c, r, ray_t, rec),
        Hittable::Translate(t) => {
            let offset_r = Ray { orig: spec_vsub(r.orig, t.offset), dir: r.dir };
            match spec_hittable_hit(*t.object, offset_r, ray_t, rec) {
                Option::None => Option::None,
                Option::Some(nr) => Option::Some(HitRecord { p: spec_vadd(nr.p, t.offset), ..nr }),
            }
        },
        Hittable::RotateX(w) => {
            let s = w.sin_theta as int;
            let c = w.cos_theta as int;
            let rr = Ray {
                orig: spec_rotx_to_object(s, c, r.orig),
                dir: spec_rotx_to_object(s, c, r.dir),
            };
            match spec_hittable_hit(*w.object, rr, ray_t, rec) {
                Option::None => Option::None,
                Option::Some(nr) => Option::Some(HitRecord {
                    p: spec_rotx_to_world(s, c, nr.p),
                    normal: spec_rotx_to_world(s, c, nr.normal),
                    ..nr
                }),
            }
        },
        Hittable::RotateY(w) => {
            let s = w.sin_theta as int;
            let c = w.cos_theta as int;
            let rr = Ray {
                orig: spec_roty_to_object(s, c, r.orig),
                dir: spec_roty_to_object(s, c, r.dir),
            };
            match spec_hittable_hit(*w.object, rr, ray_t, rec) {
                Option::None => Option::None,
                Option::Some(nr) => Option::Some(HitRecord {
                    p: spec_roty_to_world(s, c, nr.p),
                    normal: spec_roty_to_world(s, c, nr.normal),
                    ..nr
                }),
            }
        },
        Hittable::RotateZ(w) => {
            let s = w.sin_theta as int;
            let c = w.cos_theta as int;
            let rr = Ray {
                orig: spec_rotz_to_object(s, c, r.orig),
                dir: spec_rotz_to_object(s, c, r.dir),
            };
            match spec_hittable_hit(*w.object, rr, ray_t, rec) {
                Option::None => Option::None,
                Option::Some(nr) => Option::Some(HitRecord {
                    p: spec_rotz_to_world(s, c, nr.p),
                    normal: spec_rotz_to_world(s, c, nr.normal),
                    ..nr
                }),
            }
        },
        Hittable::List(hl) => spec_list_hit(hl.objects@, r, ray_t),
        Hittable::Bvh(node) => spec_bvh_node_hit(node, r, ray_t, rec),
    }
}

impl Translate {
    /// Wrap an object shifted by the given offset; the stored box is the
    /// child's box translated by it.
    pub fn new(object: Box<Hittable>, offset: Vec3) -> (r: Translate)
        requires
            hittable_wf(*object),
            vec_wf(offset),
        ensures
            r.object == object,
            r.offset == offset,
            r.bbox == crate::aabb::spec_aabb_translate(spec_bbox(*object), offset),
            hittable_wf(Hittable::Translate(r)),
    {
        proof {
            lemma_bbox_wf(*object);
        }
        let bbox: Aabb = object.bounding_box().translate(&offset);
        Translate { object, offset, bbox }
    }

    /// Hit the wrapped object with the ray shifted into object space,
    /// then shift the hit point back out.
    pub fn hit(&self, r: &Ray, ray_t: Interval, rec: &mut HitRecord) -> (res: bool)
        requires
            hittable_wf(Hittable::Translate(*self)),
            ray_wf(*r),
            interval_wf(ray_t),
            hr_wf(*old(rec)),
        ensures
            hr_wf(*final(rec)),
            match spec_hittable_hit(Hittable::Translate(*self), *r, ray_t, *old(rec)) {
                Option::Some(nr) => res && *final(rec) == nr,
                Option::None => !res && *final(rec) == *old(rec),
            },
        decreases (Hittable::Translate(*self)), (Hittable::Translate(*self)), 0int,
    {
        let offset_r: Ray = Ray::new(r.origin().sub(&self.offset), *r.direction());
        if !self.object.hit(&offset_r, ray_t, rec) {
            return false;
        }
        rec.p = rec.p.add(&self.offset);
        true
    }

    /// The precomputed bounding box.
    pub fn bounding_box(&self) -> (r: &Aabb)
        ensures
            *r == self.bbox,
    {
        &self.bbox
    }
}

impl RotateX {
    /// Wrap an object rotated about the first axis by an angle in
    /// degrees (at most one full turn either way). The stored box spans
    /// the child box's eight corners after rotation.
    pub fn new(object: Box<Hittable>, angle: i64) -> (r: RotateX)
        requires
            hittable_wf(*object),
            -23592960 <= angle <= 23592960,
        ensures
            r.object == object,
            r.sin_theta as int == spec_sin(spec_deg2rad(angle as int)),
            r.cos_theta as int == spec_cos(spec_deg2rad(angle as int)),
            forall|i: int| 0 <= i < 8 ==> crate::aabb::spec_box_contains_point(
                r.bbox,
                #[trigger] spec_axis_to_world(
                    0,
                    r.sin_theta as int,
                    r.cos_theta as int,
                    crate::aabb::spec_box_corner(spec_bbox(*object), i),
                ),
            ),
            hittable_wf(Hittable::RotateX(r)),
    {
        let radians: i64 = degrees_to_radians(angle);
        proof {
            crate::lemma_deg2rad_range(angle as int);
        }
        let sin_theta: i64 = sin_fp(radians);
        let cos_theta: i64 = cos_fp(radians);
        proof {
            lemma_bbox_wf(*object);
        }
        let bbox: Aabb = rotated_bbox(object.bounding_box(), sin_theta, cos_theta, 0);
        RotateX { object, sin_theta, cos_theta, bbox }
    }

    /// Hit the wrapped object with the ray rotated into object space,
    /// then rotate the hit point and normal back out.
    pub fn hit(&self, r: &Ray, ray_t: Interval, rec: &mut HitRecord) -> (res: bool)
        requires
            hittable_wf(Hittable::RotateX(*self)),
            ray_wf(*r),
            interval_wf(ray_t),
            hr_wf(*old(rec)),
        ensures
            hr_wf(*final(rec)),
            match spec_hittable_hit(Hittable::RotateX(*self), *r, ray_t, *old(rec)) {
                Option::Some(nr) => res && *final(rec) == nr,
                Option::None => !res && *final(rec) == *old(rec),
            },
        decreases (Hittable::RotateX(*self)), (Hittable::RotateX(*self)), 0int,
    {
        let origin: Vec3 = rotx_to_object(self.sin_theta, self.cos_theta, r.origin());
        let direction: Vec3 = rotx_to_object(self.sin_theta, self.cos_theta, r.direction());
        let rotated_r: Ray = Ray::new(origin, direction);
        if !self.object.hit(&rotated_r, ray_t, rec) {
            return false;
        }
        rec.p = rotx_to_world(self.sin_theta, self.cos_theta, &rec.p);
        rec.normal = rotx_to_world(self.sin_theta, self.cos_theta, &rec.normal);
        true
    }

    /// The precomputed bounding box.
    pub fn bounding_box(&self) -> (r: &Aabb)
        ensures
            *r == self.bbox,
    {
        &self.bbox
    }
}

impl RotateY {
    /// Wrap an object rotated about the second axis by an angle in
    /// degrees (at most one full turn either way). The stored box spans
    /// the child box's eight corners after rotation.
    pub fn new(object: Box<Hittable>, angle: i64) -> (r: RotateY)
        requires
            hittable_wf(*object),
            -23592960 <= angle <= 23592960,
        ensures
            r.object == object,
            r.sin_theta as int == spec_sin(spec_deg2rad(angle as int)),
            r.cos_theta as int == spec_cos(spec_deg2rad(angle as int)),
            forall|i: int| 0 <= i < 8 ==> crate::aabb::spec_box_contains_point(
                r.bbox,
                #[trigger] spec_axis_to_world(
                    1,
                    r.sin_theta as int,
                    r.cos_theta as int,
                    crate::aabb::spec_box_corner(spec_bbox(*object), i),
                ),
            ),
            hittable_wf(Hittable::RotateY(r)),
    {
        let radians: i64 = degrees_to_radians(angle);
        proof {
            crate::lemma_deg2rad_range(angle as int);
        }
        let sin_theta: i64 = sin_fp(radians);
        let cos_theta: i64 = cos_fp(radians);
        proof {
            lemma_bbox_wf(*object);
        }
        let bbox: Aabb = rotated_bbox(object.bounding_box(), sin_theta, cos_theta, 1);
        RotateY { object, sin_theta, cos_theta, bbox }
    }

    /// Hit the wrapped object with the ray rotated into object space,
    /// then rotate the hit point and normal back out.
    pub fn hit(&self, r: &Ray, ray_t: Interval, rec: &mut HitRecord) -> (res: bool)
        requires
            hittable_wf(Hittable::RotateY(*self)),
            ray_wf(*r),
            interval_wf(ray_t),
            hr_wf(*old(rec)),
        ensures
            hr_wf(*final(rec)),
            match spec_hittable_hit(Hittable::RotateY(*self), *r, ray_t, *old(rec)) {
                Option::Some(nr) => res && *final(rec) == nr,
                Option::None => !res && *final(rec) == *old(rec),
            },
        decreases (Hittable::RotateY(*self)), (Hittable::RotateY(*self)), 0int,
    {
        let origin: Vec3 = roty_to_object(self.sin_theta, self.cos_theta, r.origin());
        let direction: Vec3 = roty_to_object(self.sin_theta, self.cos_theta, r.direction());
        let rotated_r: Ray = Ray::new(origin, direction);
        if !self.object.hit(&rotated_r, ray_t, rec) {
            return false;
        }
        rec.p = roty_to_world(self.sin_theta, self.cos_theta, &rec.p);
        rec.normal = roty_to_world(self.sin_theta, self.cos_theta, &rec.normal);
        true
    }

    /// The precomputed bounding box.
    pub fn bounding_box(&self) -> (r: &Aabb)
        ensures
            *r == self.bbox,
    {
        &self.bbox
    }
}

impl RotateZ {
    /// Wrap an object rotated about the third axis by an angle in
    /// degrees (at most one full turn either way). The stored box spans
    /// the child box's eight corners after rotation.
    pub fn new(object: Box<Hittable>, angle: i64) -> (r: RotateZ)
        requires
            hittable_wf(*object),
            -23592960 <= angle <= 23592960,
        ensures
            r.object == object,
            r.sin_theta as int == spec_sin(spec_deg2rad(angle as int)),
            r.cos_theta as int == spec_cos(spec_deg2rad(angle as int)),
            forall|i: int| 0 <= i < 8 ==> crate::aabb::spec_box_contains_point(
                r.bbox,
                #[trigger] spec_axis_to_world(
                    2,
                    r.sin_theta as int,
                    r.cos_theta as int,
                    crate::aabb::spec_box_corner(spec_bbox(*object), i),
                ),
            ),
            hittable_wf(Hittable::RotateZ(r)),
    {
        let radians: i64 = degrees_to_radians(angle);
        proof {
            crate::lemma_deg2rad_range(angle as int);
        }
        let sin_theta: i64 = sin_fp(radians);
        let cos_theta: i64 = cos_fp(radians);
        proof {
            lemma_bbox_wf(*object);
        }
        let bbox: Aabb = rotated_bbox(object.bounding_box(), sin_theta, cos_theta, 2);
        RotateZ { object, sin_theta, cos_theta, bbox }
    }

    /// Hit the wrapped object with the ray rotated into object space,
    /// then rotate the hit point and normal back out.
    pub fn hit(&self, r: &Ray, ray_t: Interval, rec: &mut HitRecord) -> (res: bool)
        requires
            hittable_wf(Hittable::RotateZ(*self)),
            ray_wf(*r),
            interval_wf(ray_t),
            hr_wf(*old(rec)),
        ensures
            hr_wf(*final(rec)),
            match spec_hittable_hit(Hittable::RotateZ(*self), *r, ray_t, *old(rec)) {
                Option::Some(nr) => res && *final(rec) == nr,
                Option::None => !res && *final(rec) == *old(rec),
            },
        decreases (Hittable::RotateZ(*self)), (Hittable::RotateZ(*self)), 0int,
    {
        let origin: Vec3 = rotz_to_object(self.sin_theta, self.cos_theta, r.origin());
        let direction: Vec3 = rotz_to_object(self.sin_theta, self.cos_theta, r.direction());
        let rotated_r: Ray = Ray::new(origin, direction);
        if !self.object.hit(&rotated_r, ray_t, rec) {
            return false;
        }
        rec.p = rotz_to_world(self.sin_theta, self.cos_theta, &rec.p);
        rec.normal = rotz_to_world(self.sin_theta, self.cos_theta, &rec.normal);
        true
    }

    /// The precomputed bounding box.
    pub fn bounding_box(&self) -> (r: &Aabb)
        ensures
            *r == self.bbox,
    {
        &self.bbox
    }
}

/// A point carried from the rotated object's frame back to the world
/// frame, the rotating axis pair chosen by index: zero rotates about
/// the first axis, one about the second, anything else about the third.
pub open spec fn spec_axis_to_world(axis: int, s: int, c: int, v: Vec3) -> Vec3 {
    if axis == 0 {
        spec_rotx_to_world(s, c, v)
    } else if axis == 1 {
        spec_roty_to_world(s, c, v)
    } else {
        spec_rotz_to_world(s, c, v)
    }
}

/// The box spanning the eight corners of a child box after rotating the
/// axis pair the given axis index selects: it contains every rotated
/// corner, with the usual minimum-thickness padding on top.
fn rotated_bbox(child: &Aabb, s: i64, c: i64, axis: usize) -> (r: Aabb)
    requires
        aabb_wf(*child),
        in_fp(s as int),
        in_fp(c as int),
    ensures
        aabb_wf(r),
        forall|i: int| 0 <= i < 8 ==> crate::aabb::spec_box_contains_point(
            r,
            #[trigger] spec_axis_to_world(axis as int, s as int, c as int, crate::aabb::spec_box_corner(*child, i)),
        ),
{
    let mut lo: Vec3 = Vec3::new(FP_MAX, FP_MAX, FP_MAX);
    let mut hi: Vec3 = Vec3::new(-FP_MAX, -FP_MAX, -FP_MAX);
    let mut i: usize = 0;
    while i < 8
        invariant
            0 <= i <= 8,
            vec_wf(lo),
            vec_wf(hi),
            aabb_wf(*child),
            in_fp(s as int),
            in_fp(c as int),
            forall|k: int| 0 <= k < i ==> ({
                let t = #[trigger] spec_axis_to_world(
                    axis as int, s as int, c as int, crate::aabb::spec_box_corner(*child, k),
                );
                lo.x <= t.x <= hi.x && lo.y <= t.y <= hi.y && lo.z <= t.z <= hi.z
            }),
        decreases 8 - i,
    {
        let x: i64 = if i % 2 == 1 { child.x.max } else { child.x.min };
        let y: i64 = if (i / 2) % 2 == 1 { child.y.max } else { child.y.min };
        let z: i64 = if (i / 4) % 2 == 1 { child.z.max } else { child.z.min };
        let corner: Vec3 = Vec3::new(x, y, z);
        proof {
            assert(corner == crate::aabb::spec_box_corner(*child, i as int));
        }
        let tester: Vec3 = if axis == 0 {
            rotx_to_world(s, c, &corner)
        } else if axis == 1 {
            roty_to_world(s, c, &corner)
        } else {
            rotz_to_world(s, c, &corner)
        };
        proof {
            assert(tester == spec_axis_to_world(
                axis as int, s as int, c as int, crate::aabb::spec_box_corner(*child, i as int),
            ));
        }
        lo = Vec3::new(
            crate::fixed::fp_min(lo.x, tester.x),
            crate::fixed::fp_min(lo.y, tester.y),
            crate::fixed::fp_min(lo.z, tester.z),
        );
        hi = Vec3::new(
            crate::fixed::fp_max(hi.x, tester.x),
            crate::fixed::fp_max(hi.y, tester.y),
            crate::fixed::fp_max(hi.z, tester.z),
        );
        i = i + 1;
    }
    let mut bbox: Aabb = Aabb::new();
    bbox.aabb(&lo, &hi);
    proof {
        assert forall|k: int| 0 <= k < 8 implies crate::aabb::spec_box_contains_point(
            bbox,
            #[trigger] spec_axis_to_world(axis as int, s as int, c as int, crate::aabb::spec_box_corner(*child, k)),
        ) by {
            let t = spec_axis_to_world(axis as int, s as int, c as int, crate::aabb::spec_box_corner(*child, k));
            crate::aabb::lemma_from_points_contains(lo, hi, t);
        }
    }
    bbox
}

/// Coordinates far enough from the saturation bound that one offset and
/// its inverse compose without clipping.
pub const SAFE_COORD: i64 = 576460752303423488;

/// Translating an object by an offset and then by its negation reports
/// the very same hits as the object alone: the two shifts cancel on the
/// ray going in and on the hit point coming out, as long as the
/// coordinates involved keep enough margin from the saturation bound.
/// One unfolding of the hit dispatch at a translate wrapper.
proof fn lemma_unfold_translate(t: Translate, r: Ray, ray_t: Interval, rec: HitRecord)
    ensures
        spec_hittable_hit(Hittable::Translate(t), r, ray_t, rec) == ({
            let offset_r = Ray { orig: spec_vsub(r.orig, t.offset), dir: r.dir };
            match spec_hittable_hit(*t.object, offset_r, ray_t, rec) {
                Option::None => Option::<HitRecord>::None,
                Option::Some(nr) => Option::Some(HitRecord { p: spec_vadd(nr.p, t.offset), ..nr }),
            }
        }),
{
}

pub proof fn lemma_translate_round_trip(
    t_in: Translate,
    t_out: Translate,
    r: Ray,
    ray_t: Interval,
    rec: HitRecord,
)
    requires
        *t_out.object == Hittable::Translate(t_in),
        t_out.offset == spec_vneg(t_in.offset),
        -(SAFE_COORD as int) <= t_in.offset.x as int <= SAFE_COORD as int,
        -(SAFE_COORD as int) <= t_in.offset.y as int <= SAFE_COORD as int,
        -(SAFE_COORD as int) <= t_in.offset.z as int <= SAFE_COORD as int,
        -(SAFE_COORD as int) <= r.orig.x as int <= SAFE_COORD as int,
        -(SAFE_COORD as int) <= r.orig.y as int <= SAFE_COORD as int,
        -(SAFE_COORD as int) <= r.orig.z as int <= SAFE_COORD as int,
        match spec_hittable_hit(*t_in.object, r, ray_t, rec) {
            Option::Some(nr) => {
                &&& -(SAFE_COORD as int) <= nr.p.x as int <= SAFE_COORD as int
                &&& -(SAFE_COORD as int) <= nr.p.y as int <= SAFE_COORD as int
                &&& -(SAFE_COORD as int) <= nr.p.z as int <= SAFE_COORD as int
            },
            Option::None => true,
        },
    ensures
        spec_hittable_hit(Hittable::Translate(t_out), r, ray_t, rec)
            == spec_hittable_hit(*t_in.object, r, ray_t, rec),
{
    lemma_unfold_translate(t_out, r, ray_t, rec);
    let v = t_in.offset;
    let o1 = spec_vsub(r.orig, spec_vneg(v));
    lemma_unfold_translate(t_in, Ray { orig: o1, dir: r.dir }, ray_t, rec);
    let o2 = spec_vsub(o1, v);
    assert(o2 == r.orig);
    let inner_hit = spec_hittable_hit(*t_in.object, Ray { orig: o2, dir: r.dir }, ray_t, rec);
    match inner_hit {
        Option::Some(nr) => {
            let p1 = spec_vadd(nr.p, v);
            let p2 = spec_vadd(p1, spec_vneg(v));
            assert(p2 == nr.p);
        },
        Option::None => {},
    }
}

/// A rotation wrapper whose angle came out as zero (sine zero, cosine
/// one) reports exactly the hits of the object it wraps: both carries
/// between frames are the identity on representable coordinates.
pub proof fn lemma_rotate_x_zero(w: RotateX, r: Ray, ray_t: Interval, rec: HitRecord)
    requires
        w.sin_theta == 0,
        w.cos_theta == ONE,
        vec_wf(r.orig),
        vec_wf(r.dir),
        match spec_hittable_hit(*w.object, r, ray_t, rec) {
            Option::Some(nr) => vec_wf(nr.p) && vec_wf(nr.normal),
            Option::None => true,
        },
    ensures
        spec_hittable_hit(Hittable::RotateX(w), r, ray_t, rec)
            == spec_hittable_hit(*w.object, r, ray_t, rec),
{
    reveal_with_fuel(spec_hittable_hit, 2);
    lemma_rot_identity_x(r.orig);
    lemma_rot_identity_x(r.dir);
    assert(Ray {
        orig: spec_rotx_to_object(0, ONE as int, r.orig),
        dir: spec_rotx_to_object(0, ONE as int, r.dir),
    } == r);
    match spec_hittable_hit(*w.object, r, ray_t, rec) {
        Option::Some(nr) => {
            lemma_rot_identity_x(nr.p);
            lemma_rot_identity_x(nr.normal);
        },
        Option::None => {},
    }
}

/// As above, about the second axis.
pub proof fn lemma_rotate_y_zero(w: RotateY, r: Ray, ray_t: Interval, rec: HitRecord)
    requires
        w.sin_theta == 0,
        w.cos_theta == ONE,
        vec_wf(r.orig),
        vec_wf(r.dir),
        match spec_hittable_hit(*w.object, r, ray_t, rec) {
            Option::Some(nr) => vec_wf(nr.p) && vec_wf(nr.normal),
            Option::None => true,
        },
    ensures
        spec_hittable_hit(Hittable::RotateY(w), r, ray_t, rec)
            == spec_hittable_hit(*w.object, r, ray_t, rec),
{
    reveal_with_fuel(spec_hittable_hit, 2);
    lemma_rot_identity_y(r.orig);
    lemma_rot_identity_y(r.dir);
    assert(Ray {
        orig: spec_roty_to_object(0, ONE as int, r.orig),
        dir: spec_roty_to_object(0, ONE as int, r.dir),
    } == r);
    match spec_hittable_hit(*w.object, r, ray_t, rec) {
        Option::Some(nr) => {
            lemma_rot_identity_y(nr.p);
            lemma_rot_identity_y(nr.normal);
        },
        Option::None => {},
    }
}

/// As above, about the third axis.
pub proof fn lemma_rotate_z_zero(w: RotateZ, r: Ray, ray_t: Interval, rec: HitRecord)
    requires
        w.sin_theta == 0,
        w.cos_theta == ONE,
        vec_wf(r.orig),
        vec_wf(r.dir),
        match spec_hittable_hit(*w.object, r, ray_t, rec) {
            Option::Some(nr) => vec_wf(nr.p) && vec_wf(nr.normal),
            Option::None => true,
        },
    ensures
        spec_hittable_hit(Hittable::RotateZ(w), r, ray_t, rec)
            == spec_hittable_hit(*w.object, r, ray_t, rec),
{
    reveal_with_fuel(spec_hittable_hit, 2);
    lemma_rot_identity_z(r.orig);
    lemma_rot_identity_z(r.dir);
    assert(Ray {
        orig: spec_rotz_to_object(0, ONE as int, r.orig),
        dir: spec_rotz_to_object(0, ONE as int, r.dir),
    } == r);
    match spec_hittable_hit(*w.object, r, ray_t, rec) {
        Option::Some(nr) => {
            lemma_rot_identity_z(nr.p);
            lemma_rot_identity_z(nr.normal);
        },
        Option::None => {},
    }
}

/// With sine zero and cosine one, both carries fix every vector.
proof fn lemma_rot_identity_x(v: Vec3)
    requires
        vec_wf(v),
    ensures
        spec_rotx_to_object(0, ONE as int, v) == v,
        spec_rotx_to_world(0, ONE as int, v) == v,
{
    crate::fixed::lemma_mul_one(v.y as int);
    crate::fixed::lemma_mul_one(v.z as int);
    crate::fixed::lemma_mul_zero(v.y as int);
    crate::fixed::lemma_mul_zero(v.z as int);
}

/// With sine zero and cosine one, both carries fix every vector.
proof fn lemma_rot_identity_y(v: Vec3)
    requires
        vec_wf(v),
    ensures
        spec_roty_to_object(0, ONE as int, v) == v,
        spec_roty_to_world(0, ONE as int, v) == v,
{
    crate::fixed::lemma_mul_one(v.x as int);
    crate::fixed::lemma_mul_one(v.z as int);
    crate::fixed::lemma_mul_zero(v.x as int);
    crate::fixed::lemma_mul_zero(v.z as int);
}

/// With sine zero and cosine one, both carries fix every vector.
proof fn lemma_rot_identity_z(v: Vec3)
    requires
        vec_wf(v),
    ensures
        spec_rotz_to_object(0, ONE as int, v) == v,
        spec_rotz_to_world(0, ONE as int, v) == v,
{
    crate::fixed::lemma_mul_one(v.x as int);
    crate::fixed::lemma_mul_one(v.y as int);
    crate::fixed::lemma_mul_zero(v.x as int);
    crate::fixed::lemma_mul_zero(v.y as int);
}

/// A zero angle leaves the trigonometric state of a rotation wrapper at
/// sine zero and cosine one, so a wrapper built with angle zero
/// satisfies the zero-rotation laws above.
pub proof fn lemma_zero_angle_trig()
    ensures
        spec_sin(spec_deg2rad(0)) == 0,
        spec_cos(spec_deg2rad(0)) == ONE as int,
{
    assert(spec_deg2rad(0) == 0) by {
        assert(crate::fixed::spec_mul(0, crate::PI_FP as int) == 0);
        assert(crate::fixed::spec_div(0, 11796480) == 0);
    }
    crate::trig::lemma_trig_zero();
}

impl Hittable {
    /// Test the ray against this object within the parameter range; on a
    /// hit, fill the record and return true, otherwise leave it alone.
    pub fn hit(&self, r: &Ray, ray_t: Interval, rec: &mut HitRecord) -> (res: bool)
        requires
            hittable_wf(*self),
            ray_wf(*r),
            interval_wf(ray_t),
            hr_wf(*old(rec)),
        ensures
            hr_wf(*final(rec)),
            match spec_hittable_hit(*self, *r, ray_t, *old(rec)) {
                Option::Some(nr) => res && *final(rec) == nr,
                Option::None => !res && *final(rec) == *old(rec),
            },
        decreases *self, *self, 1int,
    {
        match self {
            Hittable::Sphere(s) => s.hit(r, ray_t, rec),
            Hittable::Quad(q) => q.hit(r, ray_t, rec),
            Hittable::Cylinder(c) => c.hit(r, ray_t, rec),
            Hittable::Translate(t) => t.hit(r, ray_t, rec),
            Hittable::RotateX(w) => w.hit(r, ray_t, rec),
            Hittable::RotateY(w) => w.hit(r, ray_t, rec),
            Hittable::RotateZ(w) => w.hit(r, ray_t, rec),
            Hittable::List(hl) => hl.hit(r, ray_t, rec),
            Hittable::Bvh(node) => node.hit(r, ray_t, rec),
        }
    }

    /// The precomputed bounding box of this object.
    pub fn bounding_box(&self) -> (r: &Aabb)
        ensures
            *r == spec_bbox(*self),
    {
        match self {
            Hittable::Sphere(s) => &s.bbox,
            Hittable::Quad(q) => &q.bbox,
            Hittable::Cylinder(c) => &c.bbox,
            Hittable::Translate(t) => &t.bbox,
            Hittable::RotateX(w) => &w.bbox,
            Hittable::RotateY(w) => &w.bbox,
            Hittable::RotateZ(w) => &w.bbox,
            Hittable::List(hl) => &hl.bbox,
            Hittable::Bvh(node) => &node.bbox,
        }
    }
}

} // verus!
