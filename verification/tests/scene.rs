use rt::camera::Camera;
use rt::fixed::{HALF, ONE};
use rt::hittable::Hittable;
use rt::hittable_list::HittableList;
use rt::material::{DiffuseLight, Lambertian, Material};
use rt::quad::Quad;
use rt::rng::RandomSource;
use rt::sphere::Sphere;
use rt::vec3::Vec3;

fn fx(units: i64) -> i64 {
    units * ONE
}

fn white_lambertian() -> Material {
    Material::Lambertian(Lambertian::new(Vec3::new(ONE, ONE, ONE)))
}

fn white_light() -> Material {
    Material::DiffuseLight(DiffuseLight::new(Vec3::new(ONE, ONE, ONE)))
}

#[test]
fn zero_depth_renders_pure_black() {
    // One diffuse sphere, black background, no bounce budget: the depth
    // cutoff alone makes every pixel black.
    let mut world = HittableList::new();
    world.add(Hittable::Sphere(Sphere::new(
        Vec3::new(0, 0, -ONE),
        HALF,
        white_lambertian(),
    )));
    let world_h = Hittable::List(world);

    let mut cam = Camera::new(ONE, 16);
    cam.samples_per_pixel = 4;
    cam.max_depth = 0;
    cam.background = Vec3::new(0, 0, 0);

    let mut rng = RandomSource::new(1);
    let out = cam.render(&world_h, &mut rng);
    assert_eq!(out.len(), 3 * 16 * 16);
    assert!(out.iter().all(|&b| b == 0));
}

#[test]
fn full_screen_light_renders_pure_white() {
    // A quad with unit emission filling the whole view, zero background:
    // every sample returns exactly one, and after the exact sample-count
    // scaling, gamma (the square root of one) and quantization, every
    // pixel byte is the maximum.
    let mut world = HittableList::new();
    world.add(Hittable::Quad(Quad::new(
        Vec3::new(-fx(100), -fx(100), -fx(2)),
        Vec3::new(fx(200), 0, 0),
        Vec3::new(0, fx(200), 0),
        white_light(),
    )));
    let world_h = Hittable::List(world);

    let mut cam = Camera::new(ONE, 16);
    cam.samples_per_pixel = 16;
    cam.max_depth = 4;
    cam.background = Vec3::new(0, 0, 0);

    let mut rng = RandomSource::new(1);
    let out = cam.render(&world_h, &mut rng);
    assert_eq!(out.len(), 3 * 16 * 16);
    assert!(out.iter().all(|&b| b == 255));
}

#[test]
fn half_screen_light_splits_white_and_black() {
    // The same light covering only the right half of the view: pixels on
    // the light's silhouette quantize to white, the rest stay black.
    let mut world = HittableList::new();
    world.add(Hittable::Quad(Quad::new(
        Vec3::new(fx(1), -fx(100), -fx(2)),
        Vec3::new(fx(200), 0, 0),
        Vec3::new(0, fx(200), 0),
        white_light(),
    )));
    let world_h = Hittable::List(world);

    let mut cam = Camera::new(ONE, 16);
    cam.samples_per_pixel = 16;
    cam.max_depth = 4;
    cam.background = Vec3::new(0, 0, 0);

    let mut rng = RandomSource::new(9);
    let out = cam.render(&world_h, &mut rng);
    let w = 16usize;
    let row = 8usize;
    let leftmost = 3 * (row * w + 0);
    let rightmost = 3 * (row * w + (w - 1));
    assert_eq!(out[leftmost], 0);
    assert_eq!(out[leftmost + 1], 0);
    assert_eq!(out[leftmost + 2], 0);
    assert_eq!(out[rightmost], 255);
    assert_eq!(out[rightmost + 1], 255);
    assert_eq!(out[rightmost + 2], 255);
}

#[test]
fn renders_are_deterministic_per_seed() {
    // The same scene, camera and seed twice: byte-identical output.
    let build = || {
        let mut world = HittableList::new();
        world.add(Hittable::Sphere(Sphere::new(
            Vec3::new(0, 0, -fx(2)),
            ONE,
            white_lambertian(),
        )));
        world.add(Hittable::Quad(Quad::new(
            Vec3::new(-fx(3), -fx(3), -fx(4)),
            Vec3::new(fx(6), 0, 0),
            Vec3::new(0, fx(6), 0),
            white_light(),
        )));
        Hittable::List(world)
    };

    let mut cam1 = Camera::new(ONE, 12);
    cam1.samples_per_pixel = 4;
    cam1.max_depth = 6;
    let mut cam2 = Camera::new(ONE, 12);
    cam2.samples_per_pixel = 4;
    cam2.max_depth = 6;

    let mut rng1 = RandomSource::new(99);
    let mut rng2 = RandomSource::new(99);
    let out1 = cam1.render(&build(), &mut rng1);
    let out2 = cam2.render(&build(), &mut rng2);
    assert_eq!(out1, out2);

    let mut rng3 = RandomSource::new(100);
    let mut cam3 = Camera::new(ONE, 12);
    cam3.samples_per_pixel = 4;
    cam3.max_depth = 6;
    let out3 = cam3.render(&build(), &mut rng3);
    assert_ne!(out1, out3);
}

#[test]
fn render_row_emits_three_bytes_per_pixel() {
    let mut world = HittableList::new();
    world.add(Hittable::Sphere(Sphere::new(Vec3::new(0, 0, -fx(2)), ONE, white_lambertian())));
    let world_h = Hittable::List(world);

    let mut cam = Camera::new(ONE, 8);
    cam.samples_per_pixel = 2;
    cam.max_depth = 2;
    cam.initialize();

    let mut rng = RandomSource::new(5);
    let row = cam.render_row(&world_h, 0, &mut rng);
    assert_eq!(row.len(), 3 * 8);
}

#[test]
fn camera_derives_image_height_from_aspect_ratio() {
    let cam = Camera::new(fx(4) / 3, 800);
    assert_eq!(cam.img_width, 800);
    assert_eq!(cam.img_height, 600);
    // A very wide ratio still keeps at least one row.
    let thin = Camera::new(fx(10000), 8);
    assert_eq!(thin.img_height, 1);
}

#[test]
fn channel_bytes_quantize_black_and_white() {
    assert_eq!(rt::color::channel_byte(0), 0);
    assert_eq!(rt::color::channel_byte(ONE), 255);
    assert_eq!(rt::color::channel_byte(-fx(2)), 0);
    let (r, g, b) = rt::color::color_bytes(&Vec3::new(0, ONE, ONE / 4));
    assert_eq!(r, 0);
    assert_eq!(g, 255);
    // A quarter in linear light is half after gamma: byte 128.
    assert_eq!(b, 128);
}
