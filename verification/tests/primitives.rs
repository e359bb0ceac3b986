use rt::bvh::BVHNode;
use rt::cylinder::Cylinder;
use rt::fixed::{FP_MAX, HALF, ONE};
use rt::hittable::{HitRecord, Hittable, RotateX, RotateY, RotateZ, Translate};
use rt::hittable_list::HittableList;
use rt::interval::Interval;
use rt::material::{
    create_light_material, create_material, create_standard_glass, create_standard_material,
    create_standard_metal, DefaultMaterial, DefaultPalette, Dielectric, DiffuseLight, Lambertian,
    LightColor, Material, Metal, StandardColor, StandardGlasses, StandardMetal,
};
use rt::quad::{box_, Quad};
use rt::ray::Ray;
use rt::rng::RandomSource;
use rt::sphere::Sphere;
use rt::vec3::Vec3;

fn fx(units: i64) -> i64 {
    units * ONE
}

fn grey() -> Material {
    Material::Lambertian(Lambertian::new(Vec3::new(HALF, HALF, HALF)))
}

fn full_range() -> Interval {
    Interval::new(66, FP_MAX)
}

#[test]
fn sphere_hit_through_center_at_both_roots() {
    // Center five units away, radius two: the ray through the center
    // enters at distance three and leaves at distance seven.
    let s = Sphere::new(Vec3::new(0, 0, -fx(5)), fx(2), grey());
    let r = Ray::new(Vec3::new(0, 0, 0), Vec3::new(0, 0, -ONE));
    let mut rec = HitRecord::default();

    assert!(s.hit(&r, full_range(), &mut rec));
    assert_eq!(rec.t, fx(3));
    assert_eq!(rec.p, Vec3::new(0, 0, -fx(3)));
    assert_eq!(rec.normal, Vec3::new(0, 0, ONE));
    assert!(rec.front_face);

    // Excluding the near root selects the far one.
    assert!(s.hit(&r, Interval::new(fx(4), FP_MAX), &mut rec));
    assert_eq!(rec.t, fx(7));
}

#[test]
fn sphere_miss_beyond_radius() {
    let s = Sphere::new(Vec3::new(0, 0, -fx(5)), fx(2), grey());
    // Closest approach three units: more than the radius, so no hit.
    let r = Ray::new(Vec3::new(0, fx(3), 0), Vec3::new(0, 0, -ONE));
    let mut rec = HitRecord::default();
    assert!(!s.hit(&r, full_range(), &mut rec));
}

#[test]
fn sphere_negative_radius_stored_as_zero() {
    let s = Sphere::new(Vec3::new(0, 0, 0), -fx(5), grey());
    assert_eq!(s.radius, 0);
}

#[test]
fn quad_hit_center_fills_planar_coordinates() {
    let q = Quad::new(
        Vec3::new(-ONE, -ONE, -fx(5)),
        Vec3::new(fx(2), 0, 0),
        Vec3::new(0, fx(2), 0),
        grey(),
    );
    let r = Ray::new(Vec3::new(0, 0, 0), Vec3::new(0, 0, -ONE));
    let mut rec = HitRecord::default();
    assert!(q.hit(&r, full_range(), &mut rec));
    assert_eq!(rec.t, fx(5));
    assert_eq!(rec.p, Vec3::new(0, 0, -fx(5)));
    assert_eq!(rec.u, HALF);
    assert_eq!(rec.v, HALF);
    assert!(rec.front_face);
}

#[test]
fn quad_interior_boundary_is_closed() {
    let mut rec = HitRecord::default();
    assert!(Quad::is_interior(0, 0, &mut rec));
    assert!(Quad::is_interior(ONE, ONE, &mut rec));
    assert!(Quad::is_interior(0, ONE, &mut rec));
    assert_eq!(rec.u, 0);
    assert_eq!(rec.v, ONE);
    // One tick below zero is already outside, and leaves the slots alone.
    assert!(!Quad::is_interior(-1, 0, &mut rec));
    assert!(!Quad::is_interior(0, ONE + 1, &mut rec));
    assert_eq!(rec.u, 0);
    assert_eq!(rec.v, ONE);
}

#[test]
fn quad_corner_hit_is_accepted() {
    let q = Quad::new(
        Vec3::new(-ONE, -ONE, -fx(5)),
        Vec3::new(fx(2), 0, 0),
        Vec3::new(0, fx(2), 0),
        grey(),
    );
    // Straight at the quad's origin corner: alpha and beta exactly zero.
    let r = Ray::new(Vec3::new(-ONE, -ONE, 0), Vec3::new(0, 0, -ONE));
    let mut rec = HitRecord::default();
    assert!(q.hit(&r, full_range(), &mut rec));
    assert_eq!(rec.u, 0);
    assert_eq!(rec.v, 0);
}

#[test]
fn quad_parallel_ray_misses() {
    let q = Quad::new(
        Vec3::new(-ONE, -ONE, -fx(5)),
        Vec3::new(fx(2), 0, 0),
        Vec3::new(0, fx(2), 0),
        grey(),
    );
    let r = Ray::new(Vec3::new(0, 0, 0), Vec3::new(ONE, 0, 0));
    let mut rec = HitRecord::default();
    assert!(!q.hit(&r, full_range(), &mut rec));
}

#[test]
fn cylinder_lateral_surface_hit() {
    let c = Cylinder::new(Vec3::new(0, -ONE, -fx(5)), fx(2), ONE, grey());
    let r = Ray::new(Vec3::new(0, 0, 0), Vec3::new(0, 0, -ONE));
    let mut rec = HitRecord::default();
    assert!(c.hit(&r, full_range(), &mut rec));
    assert_eq!(rec.t, fx(4));
    assert_eq!(rec.p, Vec3::new(0, 0, -fx(4)));
    assert_eq!(rec.normal, Vec3::new(0, 0, ONE));
}

#[test]
fn cylinder_cap_hit_from_above() {
    let c = Cylinder::new(Vec3::new(0, -fx(5), 0), fx(2), ONE, grey());
    let r = Ray::new(Vec3::new(0, 0, 0), Vec3::new(0, -ONE, 0));
    let mut rec = HitRecord::default();
    assert!(c.hit(&r, full_range(), &mut rec));
    // The top cap sits at the base plus the height.
    assert_eq!(rec.t, fx(3));
    assert_eq!(rec.normal, Vec3::new(0, ONE, 0));
    assert!(rec.front_face);
}

#[test]
fn translate_round_trip_restores_hits() {
    let s = Hittable::Sphere(Sphere::new(Vec3::new(0, 0, -fx(5)), fx(2), grey()));
    let v = Vec3::new(fx(7), -fx(3), fx(2));
    let bare = Hittable::Sphere(Sphere::new(Vec3::new(0, 0, -fx(5)), fx(2), grey()));
    let wrapped = Hittable::Translate(Translate::new(
        Box::new(Hittable::Translate(Translate::new(Box::new(s), v))),
        v.neg(),
    ));

    let r = Ray::new(Vec3::new(fx(1), 0, 0), Vec3::new(-12000, 3000, -ONE));
    let mut rec_a = HitRecord::default();
    let mut rec_b = HitRecord::default();
    let hit_a = bare.hit(&r, full_range(), &mut rec_a);
    let hit_b = wrapped.hit(&r, full_range(), &mut rec_b);
    assert_eq!(hit_a, hit_b);
    assert_eq!(rec_a.t, rec_b.t);
    assert_eq!(rec_a.p, rec_b.p);
    assert_eq!(rec_a.normal, rec_b.normal);
}

#[test]
fn rotation_by_zero_degrees_changes_nothing() {
    let bare = Hittable::Sphere(Sphere::new(Vec3::new(fx(1), fx(2), -fx(6)), fx(2), grey()));
    let inner = Hittable::Sphere(Sphere::new(Vec3::new(fx(1), fx(2), -fx(6)), fx(2), grey()));
    let rotated = Hittable::RotateY(RotateY::new(Box::new(inner), 0));

    let r = Ray::new(Vec3::new(0, 0, 0), Vec3::new(11000, 21000, -ONE));
    let mut rec_a = HitRecord::default();
    let mut rec_b = HitRecord::default();
    let hit_a = bare.hit(&r, full_range(), &mut rec_a);
    let hit_b = rotated.hit(&r, full_range(), &mut rec_b);
    assert_eq!(hit_a, hit_b);
    assert_eq!(rec_a.t, rec_b.t);
    assert_eq!(rec_a.p, rec_b.p);
    assert_eq!(rec_a.normal, rec_b.normal);
}

#[test]
fn rotation_by_zero_degrees_on_the_other_axes() {
    let r = Ray::new(Vec3::new(0, 0, 0), Vec3::new(9000, -5000, -ONE));
    let mk = || Hittable::Sphere(Sphere::new(Vec3::new(fx(1), -fx(1), -fx(7)), fx(2), grey()));

    let rx = Hittable::RotateX(RotateX::new(Box::new(mk()), 0));
    let rz = Hittable::RotateZ(RotateZ::new(Box::new(mk()), 0));
    let bare = mk();

    let mut rec_a = HitRecord::default();
    let mut rec_x = HitRecord::default();
    let mut rec_z = HitRecord::default();
    let ha = bare.hit(&r, full_range(), &mut rec_a);
    let hx = rx.hit(&r, full_range(), &mut rec_x);
    let hz = rz.hit(&r, full_range(), &mut rec_z);
    assert_eq!(ha, hx);
    assert_eq!(ha, hz);
    assert_eq!(rec_a.t, rec_x.t);
    assert_eq!(rec_a.t, rec_z.t);
    assert_eq!(rec_a.p, rec_x.p);
    assert_eq!(rec_a.normal, rec_z.normal);
}

#[test]
fn box_assembles_six_faces_and_bounds_them() {
    let b = box_(Vec3::new(0, 0, 0), Vec3::new(fx(2), fx(2), fx(2)), grey());
    match &b {
        Hittable::List(hl) => {
            assert_eq!(hl.objects.len(), 6);
            assert!(hl.bbox.x.min <= 0 && hl.bbox.x.max >= fx(2));
            assert!(hl.bbox.y.min <= 0 && hl.bbox.y.max >= fx(2));
            assert!(hl.bbox.z.min <= 0 && hl.bbox.z.max >= fx(2));
        }
        _ => panic!("a box should be a list of faces"),
    }
    // A ray aimed at the middle strikes the near face first.
    let r = Ray::new(Vec3::new(ONE, ONE, fx(5)), Vec3::new(0, 0, -ONE));
    let mut rec = HitRecord::default();
    assert!(b.hit(&r, full_range(), &mut rec));
    assert_eq!(rec.t, fx(3));
}

#[test]
fn list_scan_keeps_the_closest_hit() {
    let mut world = HittableList::new();
    world.add(Hittable::Sphere(Sphere::new(Vec3::new(0, 0, -fx(9)), ONE, grey())));
    world.add(Hittable::Sphere(Sphere::new(Vec3::new(0, 0, -fx(4)), ONE, grey())));
    world.add(Hittable::Sphere(Sphere::new(Vec3::new(0, 0, -fx(14)), ONE, grey())));
    let r = Ray::new(Vec3::new(0, 0, 0), Vec3::new(0, 0, -ONE));
    let mut rec = HitRecord::default();
    let world_h = Hittable::List(world);
    assert!(world_h.hit(&r, full_range(), &mut rec));
    assert_eq!(rec.t, fx(3));
}

fn non_overlapping_boxes() -> HittableList {
    let mut world = HittableList::new();
    world.add(box_(Vec3::new(-fx(4), -ONE, -fx(6)), Vec3::new(-fx(2), ONE, -fx(4)), grey()));
    world.add(box_(Vec3::new(-ONE, -ONE, -fx(9)), Vec3::new(ONE, ONE, -fx(7)), grey()));
    world.add(box_(Vec3::new(fx(2), -ONE, -fx(13)), Vec3::new(fx(4), ONE, -fx(11)), grey()));
    world.add(box_(Vec3::new(-ONE, fx(2), -fx(6)), Vec3::new(ONE, fx(4), -fx(4)), grey()));
    world.add(box_(Vec3::new(fx(2), fx(2), -fx(6)), Vec3::new(fx(4), fx(4), -fx(4)), grey()));
    world
}

#[test]
fn bvh_agrees_with_linear_scan() {
    // The cross-check between the flat list and the hierarchy: over a
    // set of disjoint boxes, every probe ray reports the same hit.
    let bvh = Hittable::Bvh(BVHNode::new_from_list(non_overlapping_boxes()));
    let list = Hittable::List(non_overlapping_boxes());

    let mut probes: Vec<Ray> = Vec::new();
    for ix in -6..7 {
        for iy in -6..7 {
            probes.push(Ray::new(
                Vec3::new(0, 0, fx(2)),
                Vec3::new(ix * ONE / 2, iy * ONE / 2, -ONE),
            ));
            probes.push(Ray::new(
                Vec3::new(ix * ONE, iy * ONE, fx(2)),
                Vec3::new(0, 0, -ONE),
            ));
        }
    }
    for r in probes.iter() {
        let mut rec_l = HitRecord::default();
        let mut rec_b = HitRecord::default();
        let hl = list.hit(r, full_range(), &mut rec_l);
        let hb = bvh.hit(r, full_range(), &mut rec_b);
        assert_eq!(hl, hb);
        if hl {
            assert_eq!(rec_l.t, rec_b.t);
            assert_eq!(rec_l.p, rec_b.p);
            assert_eq!(rec_l.normal, rec_b.normal);
        }
    }
}

#[test]
fn materials_scatter_as_documented() {
    let mut rng = RandomSource::new(7);
    let r_in = Ray::new(Vec3::new(0, 0, 0), Vec3::new(0, 0, -ONE));
    let mut rec = HitRecord::default();
    rec.p = Vec3::new(0, 0, -ONE);
    rec.normal = Vec3::new(0, 0, ONE);
    rec.front_face = true;

    let mut attenuation = Vec3::new(0, 0, 0);
    let mut scattered = Ray::new(Vec3::new(0, 0, 0), Vec3::new(0, 0, 0));

    let lam = Material::Lambertian(Lambertian::new(Vec3::new(HALF, HALF, HALF)));
    assert!(lam.scatter(&r_in, &rec, &mut attenuation, &mut scattered, &mut rng));
    assert_eq!(attenuation, Vec3::new(HALF, HALF, HALF));
    assert_eq!(scattered.orig, rec.p);

    let glass = Material::Dielectric(Dielectric::new(98304));
    assert!(glass.scatter(&r_in, &rec, &mut attenuation, &mut scattered, &mut rng));
    assert_eq!(attenuation, Vec3::new(ONE, ONE, ONE));

    let light = Material::DiffuseLight(DiffuseLight::new(Vec3::new(ONE, ONE, 0)));
    assert!(!light.scatter(&r_in, &rec, &mut attenuation, &mut scattered, &mut rng));
    assert_eq!(light.emitted(0, 0, &rec.p), Vec3::new(ONE, ONE, 0));

    let dull = Material::Default(DefaultMaterial::new());
    assert!(!dull.scatter(&r_in, &rec, &mut attenuation, &mut scattered, &mut rng));
    assert_eq!(dull.emitted(0, 0, &rec.p), Vec3::new(0, 0, 0));
}

#[test]
fn metal_roughness_is_clamped_into_unit_range() {
    let m = Metal::new(Vec3::new(ONE, ONE, ONE), fx(3));
    assert_eq!(m.fuzz, ONE);
    let m2 = Metal::new(Vec3::new(ONE, ONE, ONE), HALF);
    assert_eq!(m2.fuzz, HALF);
    let m3 = Metal::new(Vec3::new(ONE, ONE, ONE), -fx(2));
    assert_eq!(m3.fuzz, 0);
}

#[test]
fn material_constructors_select_the_variants() {
    assert!(matches!(
        create_material(DefaultPalette::Lambertian, Vec3::new(HALF, 0, 0), 0, ONE, Vec3::new(0, 0, 0)),
        Material::Lambertian(_)
    ));
    assert!(matches!(
        create_material(DefaultPalette::DefaultMaterial, Vec3::new(0, 0, 0), 0, ONE, Vec3::new(0, 0, 0)),
        Material::Default(_)
    ));
    assert!(matches!(create_standard_material(StandardColor::Red), Material::Lambertian(_)));
    assert!(matches!(create_standard_metal(StandardMetal::Gold, HALF), Material::Metal(_)));
    assert!(matches!(create_standard_glass(StandardGlasses::Diamond), Material::Dielectric(_)));
    assert!(matches!(create_light_material(LightColor::White), Material::DiffuseLight(_)));
}

#[test]
fn random_source_is_deterministic_per_seed() {
    let mut a = RandomSource::new(1234);
    let mut b = RandomSource::new(1234);
    let mut c = RandomSource::new(4321);
    let draws_a: Vec<u64> = (0..16).map(|_| a.next_u64()).collect();
    let draws_b: Vec<u64> = (0..16).map(|_| b.next_u64()).collect();
    let draws_c: Vec<u64> = (0..16).map(|_| c.next_u64()).collect();
    assert_eq!(draws_a, draws_b);
    assert_ne!(draws_a, draws_c);
}
