//! Closed numeric ranges over the fixed-point scalar.

use vstd::prelude::*;
use crate::fixed::{fp_add, fp_sub, fp_div, fp_min, fp_max, in_fp, spec_add, spec_sub, spec_div, FP_MAX};

verus! {

/// A closed range `[min, max]` of fixed-point values. The empty sentinel
/// has `min > max`; `FP_MAX` and `-FP_MAX` act as the infinite endpoints.
#[derive(Clone, Copy, PartialEq, Eq, Structural, Debug)]
pub struct Interval {
    pub min: i64,
    pub max: i64,
}

/// Endpoints within the representable range.
pub open spec fn interval_wf(i: Interval) -> bool {
    in_fp(i.min as int) && in_fp(i.max as int)
}

/// The signed width `max - min`, saturated.
pub open spec fn spec_size(i: Interval) -> int {
    spec_sub(i.max as int, i.min as int)
}

/// Closed containment.
pub open spec fn spec_contains(i: Interval, x: int) -> bool {
    i.min as int <= x && x <= i.max as int
}

/// Strict-open containment.
pub open spec fn spec_surrounds(i: Interval, x: int) -> bool {
    (i.min as int) < x && x < i.max as int
}

/// Projection of a value into the range.
pub open spec fn spec_clamp(i: Interval, x: int) -> int {
    if x < i.min as int {
        i.min as int
    } else if x > i.max as int {
        i.max as int
    } else {
        x
    }
}

/// The smallest interval containing both arguments.
pub open spec fn spec_union(a: Interval, b: Interval) -> Interval {
    Interval {
        min: if a.min <= b.min { a.min } else { b.min },
        max: if a.max >= b.max { a.max } else { b.max },
    }
}

/// Symmetric growth by half the given amount on each side.
pub open spec fn spec_expand(i: Interval, delta: int) -> Interval {
    Interval {
        min: spec_sub(i.min as int, spec_div(delta, 131072)) as i64,
        max: spec_add(i.max as int, spec_div(delta, 131072)) as i64,
    }
}

/// The range shifted by an offset.
pub open spec fn spec_translate(i: Interval, offset: int) -> Interval {
    Interval {
        min: spec_add(i.min as int, offset) as i64,
        max: spec_add(i.max as int, offset) as i64,
    }
}

impl Interval {
    /// The empty range as a spec value.
    pub open spec fn spec_empty() -> Interval {
        Interval { min: FP_MAX, max: (-(FP_MAX as int)) as i64 }
    }

    /// A range with the given endpoints.
    pub fn new(min: i64, max: i64) -> (r: Interval)
        ensures
            r.min == min,
            r.max == max,
    {
        Interval { min, max }
    }

    /// The empty range: no value lies between its endpoints.
    pub fn empty() -> (r: Interval)
        ensures
            r.min == FP_MAX,
            r.max == -FP_MAX,
            interval_wf(r),
    {
        Interval { min: FP_MAX, max: -FP_MAX }
    }

    /// The range containing every representable value.
    pub fn universe() -> (r: Interval)
        ensures
            r.min == -FP_MAX,
            r.max == FP_MAX,
            interval_wf(r),
    {
        Interval { min: -FP_MAX, max: FP_MAX }
    }

    /// The smallest interval containing two others.
    pub fn from_intervals(a: &Interval, b: &Interval) -> (r: Interval)
        ensures
            r == spec_union(*a, *b),
    {
        Interval {
            min: fp_min(a.min, b.min),
            max: fp_max(a.max, b.max),
        }
    }

    /// The signed width of the range.
    pub fn size(&self) -> (r: i64)
        requires
            interval_wf(*self),
        ensures
            r as int == spec_size(*self),
    {
        fp_sub(self.max, self.min)
    }

    /// Closed containment.
    pub fn contains(&self, x: i64) -> (r: bool)
        ensures
            r == spec_contains(*self, x as int),
    {
        self.min <= x && x <= self.max
    }

    /// Strict-open containment.
    pub fn surrounds(&self, x: i64) -> (r: bool)
        ensures
            r == spec_surrounds(*self, x as int),
    {
        self.min < x && x < self.max
    }

    /// Project a value into the range.
    pub fn clamp(&self, x: i64) -> (r: i64)
        ensures
            r as int == spec_clamp(*self, x as int),
    {
        if x < self.min {
            self.min
        } else if x > self.max {
            self.max
        } else {
            x
        }
    }

    /// Grow the range symmetrically by half the given amount on each side.
    pub fn expand(&self, delta: i64) -> (r: Interval)
        requires
            interval_wf(*self),
            in_fp(delta as int),
        ensures
            r == spec_expand(*self, delta as int),
            interval_wf(r),
    {
        let half: i64 = fp_div(delta, 131072);
        Interval {
            min: fp_sub(self.min, half),
            max: fp_add(self.max, half),
        }
    }

    /// Shift the range by an offset.
    pub fn translate(&self, offset: i64) -> (r: Interval)
        requires
            interval_wf(*self),
            in_fp(offset as int),
        ensures
            r == spec_translate(*self, offset as int),
            interval_wf(r),
    {
        Interval {
            min: fp_add(self.min, offset),
            max: fp_add(self.max, offset),
        }
    }
}

/// The union of an interval with itself is that interval.
pub proof fn lemma_union_self(a: Interval)
    ensures
        spec_union(a, a) == a,
{
}

/// Clamping lands inside a nonempty range.
pub proof fn lemma_clamp_in_range(i: Interval, x: int)
    requires
        i.min <= i.max,
    ensures
        i.min as int <= spec_clamp(i, x) <= i.max as int,
{
}

} // verus!
