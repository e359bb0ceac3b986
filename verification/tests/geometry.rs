use rt::aabb::Aabb;
use rt::fixed::{fp_div, fp_mul, fp_sqrt, FP_MAX, ONE};
use rt::interval::Interval;
use rt::ray::Ray;
use rt::trig::{cos_fp, sin_fp, HALF_PI_FP};
use rt::vec3::{Vec3, Vector3Ext};
use rt::{degrees_to_radians, PI_FP};

fn fx(units: i64) -> i64 {
    units * ONE
}

#[test]
fn fixed_arithmetic_exact_values() {
    assert_eq!(fp_mul(fx(3), fx(4)), fx(12));
    assert_eq!(fp_mul(fx(-3), fx(4)), fx(-12));
    assert_eq!(fp_div(fx(10), fx(4)), 163840); // 2.5
    assert_eq!(fp_div(fx(1), 0), FP_MAX);
    assert_eq!(fp_div(fx(-1), 0), -FP_MAX);
    assert_eq!(fp_sqrt(fx(4)), fx(2));
    assert_eq!(fp_sqrt(fx(9)), fx(3));
    assert_eq!(fp_sqrt(-fx(9)), 0);
}

#[test]
fn trig_zero_and_quarter_turn() {
    assert_eq!(sin_fp(0), 0);
    assert_eq!(cos_fp(0), ONE);
    // At a quarter turn the series is accurate to a few ticks.
    assert!((sin_fp(HALF_PI_FP) - ONE).abs() < 16);
    assert!(cos_fp(HALF_PI_FP).abs() < 16);
    // Half a turn in degrees converts to pi radians, up to truncation.
    assert!((degrees_to_radians(fx(180)) - PI_FP).abs() <= 1);
}

#[test]
fn interval_union_with_itself_is_identity() {
    let a = Interval::new(-fx(2), fx(5));
    let u = Interval::from_intervals(&a, &a);
    assert_eq!(u, a);
}

#[test]
fn interval_clamp_stays_inside() {
    let a = Interval::new(-fx(1), fx(1));
    assert_eq!(a.clamp(fx(3)), fx(1));
    assert_eq!(a.clamp(-fx(3)), -fx(1));
    assert_eq!(a.clamp(fx(0)), 0);
    assert!(a.min <= a.clamp(fx(99)) && a.clamp(fx(99)) <= a.max);
}

#[test]
fn interval_contains_and_surrounds() {
    let a = Interval::new(0, ONE);
    assert!(a.contains(0) && a.contains(ONE));
    assert!(!a.surrounds(0) && !a.surrounds(ONE));
    assert!(a.surrounds(ONE / 2));
    assert!(!a.contains(-1));
}

#[test]
fn box_from_coincident_corners_is_padded() {
    let p = Vec3::new(fx(1), fx(2), fx(3));
    let mut b = Aabb::new();
    b.aabb(&p, &p);
    assert!(b.x.size() >= 8);
    assert!(b.y.size() >= 8);
    assert!(b.z.size() >= 8);
}

#[test]
fn box_from_spread_corners_padding_floor() {
    let a = Vec3::new(0, 0, 0);
    let b = Vec3::new(fx(4), 2, 0);
    let mut bx = Aabb::new();
    bx.aabb(&a, &b);
    assert_eq!(bx.x.size(), fx(4));
    assert!(bx.y.size() >= 8);
    assert!(bx.z.size() >= 8);
}

#[test]
fn box_corner_order_does_not_matter() {
    let a = Vec3::new(-fx(1), fx(2), -fx(3));
    let b = Vec3::new(fx(4), -fx(5), fx(6));
    let mut b1 = Aabb::new();
    b1.aabb(&a, &b);
    let mut b2 = Aabb::new();
    b2.aabb(&b, &a);
    assert_eq!(b1, b2);
    let r = Ray::new(Vec3::new(0, 0, fx(10)), Vec3::new(0, 0, -ONE));
    let t = Interval::new(1, FP_MAX);
    assert_eq!(b1.hit(&r, t), b2.hit(&r, t));
}

#[test]
fn slab_test_accepts_crossing_and_rejects_missing_rays() {
    let mut b = Aabb::new();
    b.aabb(&Vec3::new(-fx(1), -fx(1), -fx(3)), &Vec3::new(fx(1), fx(1), -fx(1)));
    let through = Ray::new(Vec3::new(0, 0, 0), Vec3::new(0, 0, -ONE));
    let beside = Ray::new(Vec3::new(fx(5), 0, 0), Vec3::new(0, 0, -ONE));
    let t = Interval::new(1, FP_MAX);
    assert!(b.hit(&through, t));
    assert!(!b.hit(&beside, t));
}

#[test]
fn slab_test_handles_axis_parallel_rays() {
    let mut b = Aabb::new();
    b.aabb(&Vec3::new(-fx(1), -fx(1), -fx(3)), &Vec3::new(fx(1), fx(1), -fx(1)));
    // Direction zero on two axes: inside those slabs, so it still hits.
    let inside = Ray::new(Vec3::new(0, 0, 0), Vec3::new(0, 0, -ONE));
    assert!(b.hit(&inside, Interval::new(1, FP_MAX)));
    // Same direction but origin outside a zero-direction slab: misses.
    let outside = Ray::new(Vec3::new(fx(2), 0, 0), Vec3::new(0, 0, -ONE));
    assert!(!b.hit(&outside, Interval::new(1, FP_MAX)));
}

#[test]
fn longest_axis_prefers_higher_index_on_ties() {
    let mut b = Aabb::new();
    b.aabb(&Vec3::new(0, 0, 0), &Vec3::new(fx(1), fx(2), fx(3)));
    assert_eq!(b.longest_axis(), 2);
    let mut c = Aabb::new();
    c.aabb(&Vec3::new(0, 0, 0), &Vec3::new(fx(5), fx(2), fx(3)));
    assert_eq!(c.longest_axis(), 0);
    let mut d = Aabb::new();
    d.aabb(&Vec3::new(0, 0, 0), &Vec3::new(fx(2), fx(2), fx(2)));
    assert_eq!(d.longest_axis(), 2);
}

#[test]
fn vector_operations_exact_values() {
    let a = Vec3::new(fx(1), fx(2), fx(3));
    let b = Vec3::new(fx(4), fx(5), fx(6));
    assert_eq!(a.add(&b), Vec3::new(fx(5), fx(7), fx(9)));
    assert_eq!(b.sub(&a), Vec3::new(fx(3), fx(3), fx(3)));
    assert_eq!(a.dot(&b), fx(32));
    assert_eq!(a.cross(&b), Vec3::new(-fx(3), fx(6), -fx(3)));
    assert_eq!(a.scale(fx(2)), Vec3::new(fx(2), fx(4), fx(6)));
    assert_eq!(a.component_mul(&b), Vec3::new(fx(4), fx(10), fx(18)));
    assert_eq!(Vec3::new(fx(3), fx(4), 0).norm_squared(), fx(25));
    assert_eq!(Vec3::new(fx(3), fx(4), 0).normalize(), Vec3::new(39321, 52428, 0));
    assert!(Vec3::new(0, 0, 0).near_zero());
    assert!(!Vec3::new(1, 0, 0).near_zero());
}

#[test]
fn ray_evaluates_parametrically() {
    let r = Ray::new(Vec3::new(fx(1), 0, 0), Vec3::new(0, 0, -ONE));
    assert_eq!(r.at(fx(3)), Vec3::new(fx(1), 0, -fx(3)));
    assert_eq!(*r.origin(), Vec3::new(fx(1), 0, 0));
    assert_eq!(*r.direction(), Vec3::new(0, 0, -ONE));
}
