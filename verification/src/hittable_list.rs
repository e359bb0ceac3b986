//! A flat, unordered collection of objects with linear-scan
//! intersection: the search range's upper bound shrinks to the closest
//! hit found so far, so later members are accepted only when strictly
//! closer.

use vstd::prelude::*;
use crate::aabb::{Aabb, aabb_wf, spec_box_union};
use crate::hittable::{HitRecord, hr_wf, Hittable, hittable_wf, spec_bbox, spec_hittable_hit, lemma_bbox_wf};
use crate::interval::{Interval, interval_wf};
use crate::ray::{Ray, ray_wf};

verus! {

/// An unordered list of objects and the box bounding all of them.
#[derive(Debug)]
pub struct HittableList {
    pub objects: Vec<Hittable>,
    pub bbox: Aabb,
}

/// The scan state after the first `n` members: whether anything hit,
/// the current search cutoff, and the record slot the members share.
pub open spec fn spec_list_scan(
    objects: Seq<Hittable>,
    n: int,
    r: Ray,
    tmin: i64,
    state: (bool, i64, HitRecord),
) -> (bool, i64, HitRecord)
    decreases objects, objects, n,
{
    if n <= 0 || n > objects.len() {
        state
    } else {
        let prev = spec_list_scan(objects, n - 1, r, tmin, state);
        match spec_hittable_hit(
            objects[n - 1],
            r,
            Interval { min: tmin, max: prev.1 },
            prev.2,
        ) {
            Option::None => prev,
            Option::Some(nr) => (true, nr.t, nr),
        }
    }
}

/// What hitting the list returns: scan every member against a fresh
/// shared slot, narrowing the cutoff to each accepted hit, and report
/// the record of the closest one.
pub open spec fn spec_list_hit(objects: Seq<Hittable>, r: Ray, ray_t: Interval) -> Option<HitRecord>
    decreases objects, objects, objects.len() + 1,
{
    let s = spec_list_scan(
        objects,
        objects.len() as int,
        r,
        ray_t.min,
        (false, ray_t.max, HitRecord::spec_default()),
    );
    if s.0 {
        Option::Some(s.2)
    } else {
        Option::None
    }
}

impl HittableList {
    /// An empty list with an empty bounding box.
    pub fn new() -> (r: HittableList)
        ensures
            r.objects@.len() == 0,
            r.bbox.x == Interval::spec_empty(),
            r.bbox.y == Interval::spec_empty(),
            r.bbox.z == Interval::spec_empty(),
            hittable_wf(Hittable::List(r)),
    {
        HittableList { objects: Vec::new(), bbox: Aabb::new() }
    }

    /// Append an object and grow the aggregate box around its box.
    pub fn add(&mut self, object: Hittable)
        requires
            hittable_wf(Hittable::List(*old(self))),
            hittable_wf(object),
        ensures
            final(self).objects@ == old(self).objects@.push(object),
            final(self).bbox == spec_box_union(old(self).bbox, spec_bbox(object)),
            hittable_wf(Hittable::List(*final(self))),
    {
        proof {
            lemma_bbox_wf(object);
        }
        let bbox: Aabb = Aabb::aabb_from_boxes(&self.bbox, object.bounding_box());
        self.objects.push(object);
        self.bbox = bbox;
        proof {
            let objs = self.objects@;
            assert forall|i: int| 0 <= i < objs.len() implies hittable_wf(#[trigger] objs[i]) by {
                if i < objs.len() - 1 {
                    assert(objs[i] == old(self).objects@[i]);
                } else {
                    assert(objs[i] == object);
                }
            }
        }
    }

    /// Drop every member; the aggregate box is left as it was.
    pub fn clear(&mut self)
        ensures
            final(self).objects@.len() == 0,
            final(self).bbox == old(self).bbox,
    {
        self.objects.clear();
    }

    /// Scan every member, keeping the closest hit: each member is
    /// tested against the range up to the best hit so far, so only a
    /// strictly closer intersection replaces the record.
    pub fn hit(&self, r: &Ray, ray_t: Interval, rec: &mut HitRecord) -> (res: bool)
        requires
            hittable_wf(Hittable::List(*self)),
            ray_wf(*r),
            interval_wf(ray_t),
            hr_wf(*old(rec)),
        ensures
            hr_wf(*final(rec)),
            match spec_hittable_hit(Hittable::List(*self), *r, ray_t, *old(rec)) {
                Option::Some(nr) => res && *final(rec) == nr,
                Option::None => !res && *final(rec) == *old(rec),
            },
        decreases (Hittable::List(*self)), (Hittable::List(*self)), 0int,
    {
        let ghost init: (bool, i64, HitRecord) = (false, ray_t.max, HitRecord::spec_default());
        let mut tmp_rec: HitRecord = HitRecord::default();
        let mut hit_anything: bool = false;
        let mut closest_so_far: i64 = ray_t.max;

        let n: usize = self.objects.len();
        let mut i: usize = 0;
        while i < n
            invariant
                n == self.objects@.len(),
                0 <= i <= n,
                hittable_wf(Hittable::List(*self)),
                ray_wf(*r),
                interval_wf(ray_t),
                hr_wf(tmp_rec),
                crate::fixed::in_fp(closest_so_far as int),
                (hit_anything, closest_so_far, tmp_rec)
                    == spec_list_scan(self.objects@, i as int, *r, ray_t.min, init),
            decreases n - i,
        {
            proof {
                assert(decreases_to!(Hittable::List(*self) => self.objects@[i as int]));
            }
            if self.objects[i].hit(r, Interval::new(ray_t.min, closest_so_far), &mut tmp_rec) {
                hit_anything = true;
                closest_so_far = tmp_rec.t;
            }
            i = i + 1;
        }

        proof {
            reveal_with_fuel(spec_hittable_hit, 3);
        }
        if hit_anything {
            *rec = tmp_rec;
        }
        hit_anything
    }

    /// The precomputed aggregate bounding box.
    pub fn bounding_box(&self) -> (r: &Aabb)
        ensures
            *r == self.bbox,
    {
        &self.bbox
    }
}

} // verus!
