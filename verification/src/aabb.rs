//! Axis-aligned bounding boxes: one fixed-point interval per axis.

use vstd::prelude::*;
use crate::fixed::{fp_min, fp_max, fp_sub, fp_div, in_fp, spec_sub, spec_div, FP_MAX};
use crate::interval::{
    Interval, interval_wf, spec_size, spec_union, spec_expand, spec_translate, spec_contains,
};
use crate::ray::Ray;
use crate::vec3::{Vec3, vec_wf};

verus! {

/// The minimum thickness every constructed box keeps on each axis,
/// about 1e-4 in real units. It is even, so padding by half on each
/// side grows a degenerate axis by exactly this amount.
pub const PAD_MIN: i64 = 8;

/// An axis-aligned box: the product of three closed intervals.
#[derive(Clone, Copy, PartialEq, Eq, Structural, Debug)]
pub struct Aabb {
    pub x: Interval,
    pub y: Interval,
    pub z: Interval,
}

/// All six endpoints within the representable range.
pub open spec fn aabb_wf(b: Aabb) -> bool {
    interval_wf(b.x) && interval_wf(b.y) && interval_wf(b.z)
}

/// One axis after minimum-thickness padding.
pub open spec fn spec_pad_axis(iv: Interval) -> Interval {
    if spec_size(iv) < PAD_MIN as int {
        spec_expand(iv, PAD_MIN as int)
    } else {
        iv
    }
}

/// The whole box after minimum-thickness padding.
pub open spec fn spec_pad(b: Aabb) -> Aabb {
    Aabb { x: spec_pad_axis(b.x), y: spec_pad_axis(b.y), z: spec_pad_axis(b.z) }
}

/// The interval spanned by two scalars, in either order.
pub open spec fn spec_span(a: int, b: int) -> Interval {
    Interval {
        min: (if a <= b { a } else { b }) as i64,
        max: (if a >= b { a } else { b }) as i64,
    }
}

/// The box built from two opposite corners: per-axis spans, then padding.
pub open spec fn spec_from_points(a: Vec3, b: Vec3) -> Aabb {
    spec_pad(Aabb {
        x: spec_span(a.x as int, b.x as int),
        y: spec_span(a.y as int, b.y as int),
        z: spec_span(a.z as int, b.z as int),
    })
}

/// The smallest box containing two boxes: per-axis interval union.
pub open spec fn spec_box_union(a: Aabb, b: Aabb) -> Aabb {
    Aabb {
        x: spec_union(a.x, b.x),
        y: spec_union(a.y, b.y),
        z: spec_union(a.z, b.z),
    }
}

/// The box shifted by an offset, one axis at a time.
pub open spec fn spec_aabb_translate(b: Aabb, offset: Vec3) -> Aabb {
    Aabb {
        x: spec_translate(b.x, offset.x as int),
        y: spec_translate(b.y, offset.y as int),
        z: spec_translate(b.z, offset.z as int),
    }
}

/// The interval given by one axis of the box, by index; any index other
/// than 1 or 2 selects the first axis.
pub open spec fn spec_axis(b: Aabb, n: int) -> Interval {
    if n == 1 {
        b.y
    } else if n == 2 {
        b.z
    } else {
        b.x
    }
}

/// The running parameter range after clipping against one slab. A zero
/// direction component saturates the slab bounds, standing in for the
/// infinities of exact arithmetic.
pub open spec fn spec_axis_clip(iv: Interval, ro: int, rd: int, cur: Interval) -> Interval {
    let t0 = spec_div(spec_sub(iv.min as int, ro), rd);
    let t1 = spec_div(spec_sub(iv.max as int, ro), rd);
    let lo = if t0 < t1 { t0 } else { t1 };
    let hi = if t0 < t1 { t1 } else { t0 };
    Interval {
        min: (if cur.min as int >= lo { cur.min as int } else { lo }) as i64,
        max: (if cur.max as int <= hi { cur.max as int } else { hi }) as i64,
    }
}

/// What the slab test returns: clip the search range against each axis
/// in turn and succeed only while it stays nonempty.
pub open spec fn spec_aabb_hit(b: Aabb, r: Ray, ray_t: Interval) -> bool {
    let tx = spec_axis_clip(b.x, r.orig.x as int, r.dir.x as int, ray_t);
    if tx.max <= tx.min {
        false
    } else {
        let ty = spec_axis_clip(b.y, r.orig.y as int, r.dir.y as int, tx);
        if ty.max <= ty.min {
            false
        } else {
            let tz = spec_axis_clip(b.z, r.orig.z as int, r.dir.z as int, ty);
            tz.max > tz.min
        }
    }
}

/// The index of the widest axis; ties go to the higher index.
pub open spec fn spec_longest_axis(b: Aabb) -> int {
    if spec_size(b.x) > spec_size(b.y) {
        if spec_size(b.x) > spec_size(b.z) {
            0
        } else {
            2
        }
    } else {
        if spec_size(b.y) > spec_size(b.z) {
            1
        } else {
            2
        }
    }
}

impl Aabb {
    /// The empty box: every axis is the empty interval.
    pub fn new() -> (r: Aabb)
        ensures
            r.x == Interval::spec_empty(),
            r.y == Interval::spec_empty(),
            r.z == Interval::spec_empty(),
            aabb_wf(r),
    {
        Aabb { x: Interval::empty(), y: Interval::empty(), z: Interval::empty() }
    }

    /// The empty box.
    pub fn empty() -> (r: Aabb)
        ensures
            r.x == Interval::spec_empty(),
            r.y == Interval::spec_empty(),
            r.z == Interval::spec_empty(),
            aabb_wf(r),
    {
        Aabb::new()
    }

    /// Rebuild this box from two opposite corners: the per-axis spans of
    /// the corners, each padded up to the minimum thickness.
    pub fn aabb(&mut self, a: &Vec3, b: &Vec3)
        requires
            vec_wf(*a),
            vec_wf(*b),
        ensures
            *final(self) == spec_from_points(*a, *b),
            aabb_wf(*final(self)),
    {
        self.x = Interval::new(fp_min(a.x, b.x), fp_max(a.x, b.x));
        self.y = Interval::new(fp_min(a.y, b.y), fp_max(a.y, b.y));
        self.z = Interval::new(fp_min(a.z, b.z), fp_max(a.z, b.z));
        self.pad_to_minimums();
    }

    /// The smallest box containing two boxes.
    pub fn aabb_from_boxes(box0: &Aabb, box1: &Aabb) -> (r: Aabb)
        ensures
            r == spec_box_union(*box0, *box1),
    {
        Aabb {
            x: Interval::from_intervals(&box0.x, &box1.x),
            y: Interval::from_intervals(&box0.y, &box1.y),
            z: Interval::from_intervals(&box0.z, &box1.z),
        }
    }

    /// The interval of one axis, by index.
    pub fn axis_interval(&self, n: usize) -> (r: Interval)
        ensures
            r == spec_axis(*self, n as int),
    {
        match n {
            1 => self.y,
            2 => self.z,
            _ => self.x,
        }
    }

    /// Whether the ray crosses the box within the given parameter range:
    /// the slab test, one axis at a time, rejecting as soon as the
    /// running range is empty.
    pub fn hit(&self, r: &Ray, ray_t: Interval) -> (res: bool)
        requires
            aabb_wf(*self),
            crate::ray::ray_wf(*r),
            interval_wf(ray_t),
        ensures
            res == spec_aabb_hit(*self, *r, ray_t),
    {
        let mut t: Interval = ray_t;

        let t0x: i64 = fp_div(fp_sub(self.x.min, r.orig.x), r.dir.x);
        let t1x: i64 = fp_div(fp_sub(self.x.max, r.orig.x), r.dir.x);
        t.min = fp_max(t.min, fp_min(t0x, t1x));
        t.max = fp_min(t.max, fp_max(t0x, t1x));
        if t.max <= t.min {
            return false;
        }

        let t0y: i64 = fp_div(fp_sub(self.y.min, r.orig.y), r.dir.y);
        let t1y: i64 = fp_div(fp_sub(self.y.max, r.orig.y), r.dir.y);
        t.min = fp_max(t.min, fp_min(t0y, t1y));
        t.max = fp_min(t.max, fp_max(t0y, t1y));
        if t.max <= t.min {
            return false;
        }

        let t0z: i64 = fp_div(fp_sub(self.z.min, r.orig.z), r.dir.z);
        let t1z: i64 = fp_div(fp_sub(self.z.max, r.orig.z), r.dir.z);
        t.min = fp_max(t.min, fp_min(t0z, t1z));
        t.max = fp_min(t.max, fp_max(t0z, t1z));
        t.max > t.min
    }

    /// The index of the widest axis; ties go to the higher index.
    pub fn longest_axis(&self) -> (r: usize)
        requires
            aabb_wf(*self),
        ensures
            r as int == spec_longest_axis(*self),
            r < 3,
    {
        if self.x.size() > self.y.size() {
            if self.x.size() > self.z.size() {
                0
            } else {
                2
            }
        } else {
            if self.y.size() > self.z.size() {
                1
            } else {
                2
            }
        }
    }

    /// Widen every axis narrower than the minimum thickness.
    pub fn pad_to_minimums(&mut self)
        requires
            aabb_wf(*old(self)),
        ensures
            *final(self) == spec_pad(*old(self)),
            aabb_wf(*final(self)),
    {
        if self.x.size() < PAD_MIN {
            self.x = self.x.expand(PAD_MIN);
        }
        if self.y.size() < PAD_MIN {
            self.y = self.y.expand(PAD_MIN);
        }
        if self.z.size() < PAD_MIN {
            self.z = self.z.expand(PAD_MIN);
        }
    }

    /// The box shifted by an offset.
    pub fn translate(&self, offset: &Vec3) -> (r: Aabb)
        requires
            aabb_wf(*self),
            vec_wf(*offset),
        ensures
            r == spec_aabb_translate(*self, *offset),
            aabb_wf(r),
    {
        Aabb {
            x: self.x.translate(offset.x),
            y: self.y.translate(offset.y),
            z: self.z.translate(offset.z),
        }
    }
}

/// Saturating division is monotone in the numerator for a nonnegative
/// divisor and antitone for a negative one; a zero divisor saturates by
/// the numerator's sign, which is monotone as well.
proof fn lemma_div_numerator_monotone(x: int, y: int, d: int)
    requires
        x <= y,
    ensures
        d >= 0 ==> crate::fixed::spec_div(x, d) <= crate::fixed::spec_div(y, d),
        d < 0 ==> crate::fixed::spec_div(y, d) <= crate::fixed::spec_div(x, d),
{
    if d > 0 {
        lemma_tdiv_monotone(x * 65536, y * 65536, d);
    } else if d < 0 {
        lemma_tdiv_monotone(-(y * 65536), -(x * 65536), -d);
    }
}

/// Truncating division is monotone in the dividend.
proof fn lemma_tdiv_monotone(a: int, b: int, d: int)
    requires
        a <= b,
        d > 0,
    ensures
        crate::fixed::tdiv(a, d) <= crate::fixed::tdiv(b, d),
{
    if a >= 0 {
        vstd::arithmetic::div_mod::lemma_div_is_ordered(a, b, d);
    } else if b < 0 {
        vstd::arithmetic::div_mod::lemma_div_is_ordered(-b, -a, d);
    } else {
        vstd::arithmetic::div_mod::lemma_div_pos_is_pos(-a, d);
        vstd::arithmetic::div_mod::lemma_div_pos_is_pos(b, d);
    }
}

/// One axis of the slab test only widens when the slab widens and the
/// incoming range widens.
proof fn lemma_axis_clip_monotone(ia: Interval, ib: Interval, ro: int, rd: int, ca: Interval, cb: Interval)
    requires
        ib.min <= ia.min,
        ia.max <= ib.max,
        ia.min <= ia.max,
        cb.min <= ca.min,
        ca.max <= cb.max,
    ensures
        spec_axis_clip(ib, ro, rd, cb).min as int <= spec_axis_clip(ia, ro, rd, ca).min as int,
        spec_axis_clip(ia, ro, rd, ca).max as int <= spec_axis_clip(ib, ro, rd, cb).max as int,
{
    lemma_div_numerator_monotone(spec_sub(ib.min as int, ro), spec_sub(ia.min as int, ro), rd);
    lemma_div_numerator_monotone(spec_sub(ia.min as int, ro), spec_sub(ia.max as int, ro), rd);
    lemma_div_numerator_monotone(spec_sub(ia.max as int, ro), spec_sub(ib.max as int, ro), rd);
}

/// A box that covers another admits every crossing the covered one
/// admits: on every axis the slab range only widens, so the running
/// range stays nonempty.
pub proof fn lemma_aabb_hit_monotone(a: Aabb, b: Aabb, r: Ray, ray_t: Interval)
    requires
        b.x.min <= a.x.min && a.x.max <= b.x.max,
        b.y.min <= a.y.min && a.y.max <= b.y.max,
        b.z.min <= a.z.min && a.z.max <= b.z.max,
        a.x.min <= a.x.max,
        a.y.min <= a.y.max,
        a.z.min <= a.z.max,
        spec_aabb_hit(a, r, ray_t),
    ensures
        spec_aabb_hit(b, r, ray_t),
{
    let txa = spec_axis_clip(a.x, r.orig.x as int, r.dir.x as int, ray_t);
    let txb = spec_axis_clip(b.x, r.orig.x as int, r.dir.x as int, ray_t);
    lemma_axis_clip_monotone(a.x, b.x, r.orig.x as int, r.dir.x as int, ray_t, ray_t);
    let tya = spec_axis_clip(a.y, r.orig.y as int, r.dir.y as int, txa);
    let tyb = spec_axis_clip(b.y, r.orig.y as int, r.dir.y as int, txb);
    lemma_axis_clip_monotone(a.y, b.y, r.orig.y as int, r.dir.y as int, txa, txb);
    lemma_axis_clip_monotone(a.z, b.z, r.orig.z as int, r.dir.z as int, tya, tyb);
}

/// A box built from two corners is the same whichever corner comes
/// first, so its slab test cannot tell the two orders apart.
pub proof fn lemma_from_points_symmetric(a: Vec3, b: Vec3)
    ensures
        spec_from_points(a, b) == spec_from_points(b, a),
{
}

/// Endpoints in order on every axis: the box is not inverted.
pub open spec fn spec_box_ordered(b: Aabb) -> bool {
    b.x.min <= b.x.max && b.y.min <= b.y.max && b.z.min <= b.z.max
}

/// Whether a point lies inside the box, axis by axis, boundary included.
pub open spec fn spec_box_contains_point(b: Aabb, p: Vec3) -> bool {
    &&& b.x.min as int <= p.x as int <= b.x.max as int
    &&& b.y.min as int <= p.y as int <= b.y.max as int
    &&& b.z.min as int <= p.z as int <= b.z.max as int
}

/// The corner of a box the three low bits of an index select: a set bit
/// picks that axis's upper endpoint.
pub open spec fn spec_box_corner(b: Aabb, i: int) -> Vec3 {
    Vec3 {
        x: if i % 2 == 1 { b.x.max } else { b.x.min },
        y: if (i / 2) % 2 == 1 { b.y.max } else { b.y.min },
        z: if (i / 4) % 2 == 1 { b.z.max } else { b.z.min },
    }
}

/// A box built from two corners contains every point between them on
/// each axis: sorting picks the outer endpoints and padding only widens.
pub proof fn lemma_from_points_contains(a: Vec3, b: Vec3, p: Vec3)
    requires
        vec_wf(a),
        vec_wf(b),
        spec_contains(spec_span(a.x as int, b.x as int), p.x as int),
        spec_contains(spec_span(a.y as int, b.y as int), p.y as int),
        spec_contains(spec_span(a.z as int, b.z as int), p.z as int),
    ensures
        spec_box_contains_point(spec_from_points(a, b), p),
{
}

/// The slab test cannot tell apart the two corner orders either: the
/// corners are sorted per axis before the box exists.
pub proof fn lemma_hit_corner_order(a: Vec3, b: Vec3, r: Ray, ray_t: Interval)
    ensures
        spec_aabb_hit(spec_from_points(a, b), r, ray_t)
            == spec_aabb_hit(spec_from_points(b, a), r, ray_t),
{
    lemma_from_points_symmetric(a, b);
}

/// Every axis of a box built from two corners is at least the minimum
/// thickness wide, provided the corners keep enough margin from the
/// saturation bound for the padding to apply unclipped.
pub proof fn lemma_from_points_min_thickness(a: Vec3, b: Vec3)
    requires
        -(FP_MAX as int) + PAD_MIN as int <= a.x as int <= FP_MAX as int - PAD_MIN as int,
        -(FP_MAX as int) + PAD_MIN as int <= a.y as int <= FP_MAX as int - PAD_MIN as int,
        -(FP_MAX as int) + PAD_MIN as int <= a.z as int <= FP_MAX as int - PAD_MIN as int,
        -(FP_MAX as int) + PAD_MIN as int <= b.x as int <= FP_MAX as int - PAD_MIN as int,
        -(FP_MAX as int) + PAD_MIN as int <= b.y as int <= FP_MAX as int - PAD_MIN as int,
        -(FP_MAX as int) + PAD_MIN as int <= b.z as int <= FP_MAX as int - PAD_MIN as int,
    ensures
        spec_size(spec_from_points(a, b).x) >= PAD_MIN as int,
        spec_size(spec_from_points(a, b).y) >= PAD_MIN as int,
        spec_size(spec_from_points(a, b).z) >= PAD_MIN as int,
{
}

} // verus!
