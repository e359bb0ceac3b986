//! The camera and the shading integrator: per-pixel ray generation with
//! stochastic jitter and optional defocus sampling, and the recursive
//! estimator combining emission with attenuated scattering, cut off at
//! a fixed bounce depth.

use vstd::prelude::*;
use crate::fixed::{
    fp_add, fp_sub, fp_mul, fp_div, in_fp,
    spec_add, spec_sub, spec_mul, spec_div, FP_MAX, ONE, HALF,
};
use crate::hittable::{HitRecord, hr_wf, Hittable, hittable_wf, spec_hittable_hit};
use crate::interval::Interval;
use crate::color::spec_channel_byte;
use crate::material::{Material, spec_emitted, spec_scatter};
use crate::ray::{Ray, ray_wf};
use crate::rng::RandomSource;
use crate::trig::{sin_fp, cos_fp, spec_sin, spec_cos};
use crate::vec3::{Vec3, vec_wf, random_in_unit_disk, spec_disk_sample, spec_vadd, spec_vsub, spec_vneg, spec_vscale, spec_vdiv, spec_vcompmul, spec_cross, spec_vnormalize};
use crate::rng::std_rng_next;
use crate::{degrees_to_radians, spec_deg2rad, spec_unit_draw, random_double};

verus! {

/// The lower end of every shading query's search range, just above
/// zero, so a scattered ray does not re-hit its own origin.
pub const T_MIN_FP: i64 = 66;

/// The camera configuration and the state derived from it before a
/// render: view basis, pixel deltas, the location of the first pixel,
/// and the defocus disk.
#[derive(Clone, Copy, PartialEq, Eq, Structural, Debug)]
pub struct Camera {
    pub aspect_ratio: i64,
    pub img_width: usize,
    pub img_height: usize,

    pub camera_center: Vec3,
    pub pixel_delta_horizontal: Vec3,
    pub pixel_delta_vertical: Vec3,
    pub pixel00_loc: Vec3,
    pub samples_per_pixel: usize,
    pub pixel_samples_scale: i64,
    pub max_depth: usize,
    pub focal_length: i64,

    pub vfov: i64,
    pub lookfrom: Vec3,
    pub lookat: Vec3,
    pub vup: Vec3,

    pub defocus_angle: i64,
    pub focus_dist: i64,
    pub defocus_disk_horizontal: Vec3,
    pub defocus_disk_vertical: Vec3,

    pub u: Vec3,
    pub v: Vec3,
    pub w: Vec3,

    pub background: Vec3,
    pub brightness: i64,
}

/// Configuration within range: a positive aspect ratio, sane image and
/// sampling sizes, a field of view within the half turn the derivation
/// handles, and every scalar and vector representable.
pub open spec fn camera_wf(c: Camera) -> bool {
    &&& in_fp(c.aspect_ratio as int) && c.aspect_ratio > 0
    &&& 1 <= c.img_width <= 32768
    &&& 1 <= c.img_height <= 17592186044416
    &&& 1 <= c.samples_per_pixel <= 65536
    &&& in_fp(c.pixel_samples_scale as int)
    &&& in_fp(c.focal_length as int)
    &&& 0 < c.vfov <= 11796480
    &&& 0 <= c.defocus_angle <= 11796480
    &&& in_fp(c.focus_dist as int)
    &&& in_fp(c.brightness as int)
    &&& vec_wf(c.camera_center) && vec_wf(c.pixel_delta_horizontal)
    &&& vec_wf(c.pixel_delta_vertical) && vec_wf(c.pixel00_loc)
    &&& vec_wf(c.lookfrom) && vec_wf(c.lookat) && vec_wf(c.vup)
    &&& vec_wf(c.defocus_disk_horizontal) && vec_wf(c.defocus_disk_vertical)
    &&& vec_wf(c.u) && vec_wf(c.v) && vec_wf(c.w) && vec_wf(c.background)
}

/// What the derived image height is: the width over the aspect ratio,
/// at least one row.
pub open spec fn spec_image_height(width: int, aspect: int) -> int {
    let hf = spec_div(width * 65536, aspect);
    let h = hf / 65536;
    if h >= 1 {
        h
    } else {
        1
    }
}

/// What initialization derives from the configuration: the image
/// height, the sample scale, the orthonormal view basis, the viewport
/// deltas, the first pixel's location and the defocus disk.
pub open spec fn spec_initialize(c: Camera) -> Camera {
    let ih = spec_image_height(c.img_width as int, c.aspect_ratio as int);
    let scale = spec_div(ONE as int, (c.samples_per_pixel as int) * 65536);
    let center = c.lookfrom;
    let theta = spec_deg2rad(c.vfov as int);
    let half_theta = spec_div(theta, 131072);
    let h = spec_div(spec_sin(half_theta), spec_cos(half_theta));
    let viewport_height = spec_mul(spec_add(h, h), c.focus_dist as int);
    let ratio = spec_div((c.img_width as int) * 65536, ih * 65536);
    let viewport_width = spec_mul(viewport_height, ratio);
    let wv = spec_vnormalize(spec_vsub(c.lookfrom, c.lookat));
    let uv = spec_vnormalize(spec_cross(c.vup, wv));
    let vv = spec_cross(wv, uv);
    let viewport_horizontal = spec_vscale(uv, viewport_width);
    let viewport_vertical = spec_vscale(spec_vneg(vv), viewport_height);
    let pdh = spec_vdiv(viewport_horizontal, (c.img_width as int) * 65536);
    let pdv = spec_vdiv(viewport_vertical, ih * 65536);
    let upper_left = spec_vsub(
        spec_vsub(
            spec_vsub(center, spec_vscale(wv, c.focus_dist as int)),
            spec_vdiv(viewport_horizontal, 131072),
        ),
        spec_vdiv(viewport_vertical, 131072),
    );
    let defocus_radius = spec_mul(
        c.focus_dist as int,
        spec_div(
            spec_sin(spec_div(spec_deg2rad(c.defocus_angle as int), 131072)),
            spec_cos(spec_div(spec_deg2rad(c.defocus_angle as int), 131072)),
        ),
    );
    let ddh = spec_vscale(uv, defocus_radius);
    let ddv = spec_vscale(vv, defocus_radius);
    let pixel00 = spec_vadd(upper_left, spec_vscale(spec_vadd(pdh, pdv), HALF as int));
    Camera {
        img_height: ih as usize,
        pixel_samples_scale: scale as i64,
        camera_center: center,
        u: uv,
        v: vv,
        w: wv,
        pixel_delta_horizontal: pdh,
        pixel_delta_vertical: pdv,
        pixel00_loc: pixel00,
        defocus_disk_horizontal: ddh,
        defocus_disk_vertical: ddv,
        ..c
    }
}

/// The ray a camera produces for pixel `(i, j)` given the two in-pixel
/// jitter draws and a chosen origin: aim at the jittered sample point
/// on the viewport and head there from the origin.
#[verifier::opaque]
pub open spec fn spec_get_ray(c: Camera, i: int, j: int, u1: int, u2: int, origin: Vec3) -> Ray {
    let ox = spec_sub(u1, HALF as int);
    let oy = spec_sub(u2, HALF as int);
    let pixel_sample = spec_vadd(
        spec_vadd(c.pixel00_loc, spec_vscale(c.pixel_delta_horizontal, spec_add(i, ox))),
        spec_vscale(c.pixel_delta_vertical, spec_add(j, oy)),
    );
    Ray { orig: origin, dir: spec_vsub(pixel_sample, origin) }
}

/// What the defocus origin sampler returns and where it leaves the
/// stream: the camera center offset along the defocus disk basis by a
/// sampled disk point.
#[verifier::opaque]
pub open spec fn spec_defocus_sample(c: Camera, seed: u64, idx: nat) -> (Vec3, nat) {
    let d = spec_disk_sample(seed, idx, 64);
    (
        spec_vadd(
            spec_vadd(c.camera_center, spec_vscale(c.defocus_disk_horizontal, d.0.x as int)),
            spec_vscale(c.defocus_disk_vertical, d.0.y as int),
        ),
        d.1,
    )
}

/// The camera ray for a pixel and where it leaves the stream: two
/// jitter draws aim inside the pixel; a positive defocus angle then
/// samples the ray's origin on the defocus disk, else the origin is
/// the camera center.
#[verifier::opaque]
pub open spec fn spec_ray_sample(c: Camera, i: int, j: int, seed: u64, idx: nat) -> (Ray, nat) {
    let u1 = spec_unit_draw(std_rng_next(seed, idx));
    let u2 = spec_unit_draw(std_rng_next(seed, (idx + 1) as nat));
    if c.defocus_angle <= 0 {
        (spec_get_ray(c, i, j, u1, u2, c.camera_center), (idx + 2) as nat)
    } else {
        let o = spec_defocus_sample(c, seed, (idx + 2) as nat);
        (spec_get_ray(c, i, j, u1, u2, o.0), o.1)
    }
}

/// The radiance along a ray and where it leaves the stream, as a
/// function of the scene, the camera, the bounce budget and the random
/// stream: black once the budget is spent; the background on a miss; on
/// a hit the emission plus, when the material scatters, the attenuated
/// radiance of the scattered ray one bounce down.
pub open spec fn spec_ray_color(
    c: Camera,
    r: Ray,
    depth: int,
    world: Hittable,
    seed: u64,
    idx: nat,
) -> (Vec3, nat)
    decreases depth,
{
    if depth <= 0 {
        (Vec3 { x: 0i64, y: 0i64, z: 0i64 }, idx)
    } else {
        match spec_hittable_hit(world, r, Interval { min: T_MIN_FP, max: FP_MAX }, HitRecord::spec_default()) {
            Option::None => (c.background, idx),
            Option::Some(nr) => {
                let emission = spec_emitted(nr.mat);
                let zero = Vec3 { x: 0i64, y: 0i64, z: 0i64 };
                let s = spec_scatter(nr.mat, r, nr, zero, Ray { orig: zero, dir: zero }, seed, idx);
                if s.0 {
                    let sub = spec_ray_color(c, s.2, depth - 1, world, seed, s.3);
                    (spec_vadd(emission, spec_vcompmul(s.1, sub.0)), sub.1)
                } else {
                    (emission, s.3)
                }
            },
        }
    }
}

/// The sum of one pixel's sample radiances and where the stream ends:
/// each sample aims one camera ray into the pixel and shades it.
pub open spec fn spec_pixel_samples(
    c: Camera,
    world: Hittable,
    i: int,
    j: int,
    n: int,
    seed: u64,
    idx: nat,
) -> (Vec3, nat)
    decreases n,
{
    if n <= 0 {
        (Vec3 { x: 0i64, y: 0i64, z: 0i64 }, idx)
    } else {
        let prev = spec_pixel_samples(c, world, i, j, n - 1, seed, idx);
        let ray = spec_ray_sample(c, i * 65536, j * 65536, seed, prev.1);
        let col = spec_ray_color(c, ray.0, c.max_depth as int, world, seed, ray.1);
        (spec_vadd(prev.0, col.0), col.1)
    }
}

/// One pixel's three display bytes and where the stream ends: the
/// sample sum scaled by the sample scale and the brightness, then each
/// channel gamma-corrected and quantized.
#[verifier::opaque]
pub open spec fn spec_pixel_bytes(
    c: Camera,
    world: Hittable,
    i: int,
    j: int,
    seed: u64,
    idx: nat,
) -> (Seq<u8>, nat) {
    let acc = spec_pixel_samples(c, world, i, j, c.samples_per_pixel as int, seed, idx);

    let scaled = spec_vscale(acc.0, spec_mul(c.pixel_samples_scale as int, c.brightness as int));
    (
        seq![
            spec_channel_byte(scaled.x as int) as u8,
            spec_channel_byte(scaled.y as int) as u8,
            spec_channel_byte(scaled.z as int) as u8,
        ],
        acc.1,
    )
}

/// One row's bytes, pixels left to right, and where the stream ends.
pub open spec fn spec_row_bytes(
    c: Camera,
    world: Hittable,
    j: int,
    n: int,
    seed: u64,
    idx: nat,
) -> (Seq<u8>, nat)
    decreases n,
{
    if n <= 0 {
        (Seq::empty(), idx)
    } else {
        let prev = spec_row_bytes(c, world, j, n - 1, seed, idx);
        let px = spec_pixel_bytes(c, world, n - 1, j, seed, prev.1);
        (prev.0 + px.0, px.1)
    }
}

/// The whole image's bytes, rows top to bottom, and where the stream
/// ends.
pub open spec fn spec_image_bytes(
    c: Camera,
    world: Hittable,
    m: int,
    seed: u64,
    idx: nat,
) -> (Seq<u8>, nat)
    decreases m,
{
    if m <= 0 {
        (Seq::empty(), idx)
    } else {
        let prev = spec_image_bytes(c, world, m - 1, seed, idx);
        let row = spec_row_bytes(c, world, m - 1, c.img_width as int, seed, prev.1);
        (prev.0 + row.0, row.1)
    }
}

impl Camera {
    /// A camera over an aspect ratio and an image width, with stock
    /// settings for everything else.
    pub fn new(aspect_ratio: i64, img_width: usize) -> (r: Camera)
        requires
            in_fp(aspect_ratio as int),
            aspect_ratio > 0,
            1 <= img_width <= 32768,
        ensures
            r.aspect_ratio == aspect_ratio,
            r.img_width == img_width,
            r.img_height as int == spec_image_height(img_width as int, aspect_ratio as int),
            r.samples_per_pixel == 10,
            r.max_depth == 10,
            r.vfov == 5898240,
            r.lookfrom == (Vec3 { x: 0i64, y: 0i64, z: 0i64 }),
            r.lookat == (Vec3 { x: 0i64, y: 0i64, z: -65536i64 }),
            r.vup == (Vec3 { x: 0i64, y: 65536i64, z: 0i64 }),
            r.defocus_angle == 0,
            r.focus_dist == 655360,
            r.background == (Vec3 { x: 0i64, y: 0i64, z: 0i64 }),
            r.brightness == ONE,
            r.focal_length == ONE,
            camera_wf(r),
    {
        let img_height: usize = Self::derive_height(aspect_ratio, img_width);
        Camera {
            aspect_ratio,
            img_width,
            img_height,
            camera_center: Vec3::zero(),
            pixel_delta_horizontal: Vec3::zero(),
            pixel_delta_vertical: Vec3::zero(),
            pixel00_loc: Vec3::zero(),
            samples_per_pixel: 10,
            pixel_samples_scale: ONE,
            max_depth: 10,
            focal_length: ONE,
            vfov: 5898240,
            lookfrom: Vec3::new(0, 0, 0),
            lookat: Vec3::new(0, 0, -ONE),
            vup: Vec3::new(0, ONE, 0),
            defocus_angle: 0,
            focus_dist: 655360,
            defocus_disk_horizontal: Vec3::zero(),
            defocus_disk_vertical: Vec3::zero(),
            u: Vec3::zero(),
            v: Vec3::zero(),
            w: Vec3::zero(),
            background: Vec3::new(0, 0, 0),
            brightness: ONE,
        }
    }

    /// The image height the width and aspect ratio give, at least one.
    fn derive_height(aspect_ratio: i64, img_width: usize) -> (r: usize)
        requires
            in_fp(aspect_ratio as int),
            aspect_ratio > 0,
            1 <= img_width <= 32768,
        ensures
            r as int == spec_image_height(img_width as int, aspect_ratio as int),
            1 <= r <= 17592186044416,
    {
        let wf: i64 = (img_width as i64) * 65536;
        let hf: i64 = fp_div(wf, aspect_ratio);
        proof {
            vstd::arithmetic::div_mod::lemma_div_pos_is_pos((wf as int) * 65536, aspect_ratio as int);
            vstd::arithmetic::div_mod::lemma_div_pos_is_pos(hf as int, 65536);
            vstd::arithmetic::div_mod::lemma_div_is_ordered(hf as int, FP_MAX as int, 65536);
        }
        let h: usize = ((hf as u64) / 65536) as usize;
        max_usize(h, 1)
    }

    /// Derive the per-render state from the configuration: must run
    /// before rendering, and is not re-run when a setting changes.
    pub fn initialize(&mut self)
        requires
            camera_wf(*old(self)),
        ensures
            *final(self) == spec_initialize(*old(self)),
            camera_wf(*final(self)),
    {
        self.img_height = Self::derive_height(self.aspect_ratio, self.img_width);

        let samples_fixed: i64 = (self.samples_per_pixel as i64) * 65536;
        self.pixel_samples_scale = fp_div(ONE, samples_fixed);

        self.camera_center = self.lookfrom;

        let theta: i64 = degrees_to_radians(self.vfov);
        proof {
            crate::lemma_deg2rad_range(self.vfov as int);
        }
        let half_theta: i64 = fp_div(theta, 131072);
        let h: i64 = fp_div(sin_fp(half_theta), cos_fp(half_theta));

        let viewport_height: i64 = fp_mul(fp_add(h, h), self.focus_dist);
        let ratio: i64 = fp_div((self.img_width as i64) * 65536, (self.img_height as i64) * 65536);
        let viewport_width: i64 = fp_mul(viewport_height, ratio);

        self.w = self.lookfrom.sub(&self.lookat).normalize();
        self.u = self.vup.cross(&self.w).normalize();
        self.v = self.w.cross(&self.u);

        let viewport_horizontal: Vec3 = self.u.scale(viewport_width);
        let viewport_vertical: Vec3 = self.v.neg().scale(viewport_height);

        self.pixel_delta_horizontal = viewport_horizontal.div((self.img_width as i64) * 65536);
        self.pixel_delta_vertical = viewport_vertical.div((self.img_height as i64) * 65536);

        let viewport_upper_left: Vec3 = self.camera_center
            .sub(&self.w.scale(self.focus_dist))
            .sub(&viewport_horizontal.div(131072))
            .sub(&viewport_vertical.div(131072));

        let defocus_theta: i64 = degrees_to_radians(self.defocus_angle);
        proof {
            crate::lemma_deg2rad_range(self.defocus_angle as int);
        }
        let half_defocus: i64 = fp_div(defocus_theta, 131072);
        let defocus_radius: i64 = fp_mul(
            self.focus_dist,
            fp_div(sin_fp(half_defocus), cos_fp(half_defocus)),
        );
        self.defocus_disk_horizontal = self.u.scale(defocus_radius);
        self.defocus_disk_vertical = self.v.scale(defocus_radius);

        self.pixel00_loc = viewport_upper_left.add(
            &self.pixel_delta_horizontal.add(&self.pixel_delta_vertical).scale(HALF),
        );
    }

    /// A camera ray for pixel `(i, j)` (given in fixed point): jitter
    /// the sample point inside the pixel, and start the ray from the
    /// defocus disk when a defocus angle is set, else from the center.
    pub fn get_ray(&self, i: i64, j: i64, rng: &mut RandomSource) -> (r: Ray)
        requires
            camera_wf(*self),
            in_fp(i as int),
            in_fp(j as int),
        ensures
            final(rng)@.0 == old(rng)@.0,
            ray_wf(r),
            (r, final(rng)@.1) == spec_ray_sample(*self, i as int, j as int, old(rng)@.0, old(rng)@.1),
            self.defocus_angle <= 0 ==> r.orig == self.camera_center,
    {
        proof {
            reveal(spec_get_ray);
            reveal(spec_ray_sample);
        }
        let ox: i64 = fp_sub(random_double(rng), HALF);
        let oy: i64 = fp_sub(random_double(rng), HALF);

        let pixel_sample: Vec3 = self.pixel00_loc
            .add(&self.pixel_delta_horizontal.scale(fp_add(i, ox)))
            .add(&self.pixel_delta_vertical.scale(fp_add(j, oy)));

        let ray_origin: Vec3 = if self.defocus_angle <= 0 {
            self.camera_center
        } else {
            self.defocus_disk_sample(rng)
        };

        let ray_direction: Vec3 = pixel_sample.sub(&ray_origin);

        Ray::new(ray_origin, ray_direction)
    }

    /// A ray origin on the defocus disk around the camera center.
    fn defocus_disk_sample(&self, rng: &mut RandomSource) -> (r: Vec3)
        requires
            camera_wf(*self),
        ensures
            final(rng)@.0 == old(rng)@.0,
            (r, final(rng)@.1) == spec_defocus_sample(*self, old(rng)@.0, old(rng)@.1),
            vec_wf(r),
    {
        proof {
            reveal(spec_defocus_sample);
        }
        let p: Vec3 = random_in_unit_disk(rng);
        self.camera_center
            .add(&self.defocus_disk_horizontal.scale(p.x))
            .add(&self.defocus_disk_vertical.scale(p.y))
    }

    /// The radiance along a ray: black once the bounce budget is spent;
    /// the background where nothing is hit; otherwise the emission at
    /// the hit plus the attenuated radiance of the scattered ray, or
    /// the emission alone where the material does not scatter.
    pub fn ray_color(&self, r: &Ray, depth: usize, world: &Hittable, rng: &mut RandomSource) -> (c: Vec3)
        requires
            camera_wf(*self),
            ray_wf(*r),
            hittable_wf(*world),
        ensures
            final(rng)@.0 == old(rng)@.0,
            vec_wf(c),
            (c, final(rng)@.1) == spec_ray_color(*self, *r, depth as int, *world, old(rng)@.0, old(rng)@.1),
            depth == 0 ==> c == (Vec3 { x: 0i64, y: 0i64, z: 0i64 }),
            depth > 0 ==> match spec_hittable_hit(
                *world,
                *r,
                Interval { min: T_MIN_FP, max: FP_MAX },
                HitRecord::spec_default(),
            ) {
                Option::None => c == self.background,
                Option::Some(nr) => (nr.mat matches Material::DiffuseLight(_)
                    || nr.mat matches Material::Default(_)) ==> c == spec_emitted(nr.mat),
            },
        decreases depth,
    {
        proof {
            reveal(spec_scatter);
        }
        if depth == 0 {
            return Vec3::zero();
        }

        let mut rec: HitRecord = HitRecord::default();

        if !world.hit(r, Interval::new(T_MIN_FP, FP_MAX), &mut rec) {
            return self.background;
        }

        let color_from_emission: Vec3 = rec.mat.emitted(rec.u, rec.v, &rec.p);

        let mut scattered: Ray = Ray::new(Vec3::zero(), Vec3::zero());
        let mut attenuation: Vec3 = Vec3::zero();
        if rec.mat.scatter(r, &rec, &mut attenuation, &mut scattered, rng) {
            let color_from_scatter: Vec3 =
                attenuation.component_mul(&self.ray_color(&scattered, depth - 1, world, rng));
            return color_from_emission.add(&color_from_scatter);
        }
        color_from_emission
    }

    /// The bytes of one row of pixels, top to bottom being the caller's
    /// order: three bytes per pixel, left to right, each pixel the
    /// quantization of its sample sum along the named random stream.
    /// With the bounce budget at zero every byte is black.
    #[verifier::rlimit(100)]
    pub fn render_row(&self, world: &Hittable, j: usize, rng: &mut RandomSource) -> (row: Vec<u8>)
        requires
            camera_wf(*self),
            hittable_wf(*world),
            j <= 17592186044416,
        ensures
            final(rng)@.0 == old(rng)@.0,
            row@.len() == 3 * self.img_width,
            row@ == spec_row_bytes(
                *self, *world, j as int, self.img_width as int, old(rng)@.0, old(rng)@.1,
            ).0,
            final(rng)@.1 == spec_row_bytes(
                *self, *world, j as int, self.img_width as int, old(rng)@.0, old(rng)@.1,
            ).1,
            self.max_depth == 0 ==> forall|k: int| 0 <= k < row@.len() ==> row@[k] == 0,
    {
        let mut row: Vec<u8> = Vec::new();
        let jf: i64 = (j as i64) * 65536;
        let mut i: usize = 0;
        while i < self.img_width
            invariant
                camera_wf(*self),
                hittable_wf(*world),
                in_fp(jf as int),
                jf as int == j * 65536,
                0 <= i <= self.img_width,
                row@.len() == 3 * i,
                rng@.0 == old(rng)@.0,
                row@ == spec_row_bytes(*self, *world, j as int, i as int, old(rng)@.0, old(rng)@.1).0,
                rng@.1 == spec_row_bytes(*self, *world, j as int, i as int, old(rng)@.0, old(rng)@.1).1,
                self.max_depth == 0 ==> forall|k: int| 0 <= k < row@.len() ==> row@[k] == 0,
            decreases self.img_width - i,
        {
            let ghost row0 = row@;
            let ghost idx0 = rng@.1;
            let mut pixel_color: Vec3 = Vec3::zero();
            let mut s: usize = 0;
            while s < self.samples_per_pixel
                invariant
                    camera_wf(*self),
                    hittable_wf(*world),
                    in_fp(jf as int),
                    jf as int == j * 65536,
                    j <= 17592186044416,
                    0 <= i < self.img_width,
                    0 <= s <= self.samples_per_pixel,
                    vec_wf(pixel_color),
                    rng@.0 == old(rng)@.0,
                    pixel_color == spec_pixel_samples(
                        *self, *world, i as int, j as int, s as int, rng@.0, idx0,
                    ).0,
                    rng@.1 == spec_pixel_samples(
                        *self, *world, i as int, j as int, s as int, rng@.0, idx0,
                    ).1,
                    self.max_depth == 0 ==> pixel_color == (Vec3 { x: 0i64, y: 0i64, z: 0i64 }),
                decreases self.samples_per_pixel - s,
            {
                let fi: i64 = (i as i64) * 65536;
                let r: Ray = self.get_ray(fi, jf, rng);
                let sample: Vec3 = self.ray_color(&r, self.max_depth, world, rng);
                pixel_color = pixel_color.add(&sample);
                s = s + 1;
            }
            pixel_color = pixel_color.scale(fp_mul(self.pixel_samples_scale, self.brightness));
            proof {
                if self.max_depth == 0 {
                    crate::fixed::lemma_mul_zero(spec_mul(
                        self.pixel_samples_scale as int,
                        self.brightness as int,
                    ));
                    crate::color::lemma_black_byte();
                }
            }
            let (rb, gb, bb): (u8, u8, u8) = crate::color::color_bytes(&pixel_color);
            row.push(rb);
            row.push(gb);
            row.push(bb);
            i = i + 1;
            proof {
                reveal(spec_pixel_bytes);
                let px = spec_pixel_bytes(*self, *world, i - 1, j as int, rng@.0, idx0);
                assert(row@ =~= row0 + px.0);
            }
        }
        row
    }

    /// Render the whole image: derive the per-render state, then emit
    /// three bytes per pixel in row-major order, top to bottom and left
    /// to right within each row. The output is pinned to a fold over
    /// the configuration, the scene and the seeded random stream alone,
    /// so two renders from equal seeds are byte-identical. With the
    /// bounce budget at zero the whole image is black.
    #[verifier::loop_isolation(false)]
    #[verifier::rlimit(100)]
    pub fn render(&mut self, world: &Hittable, rng: &mut RandomSource) -> (out: Vec<u8>)
        requires
            camera_wf(*old(self)),
            hittable_wf(*world),
        ensures
            *final(self) == spec_initialize(*old(self)),
            out@.len() == 3 * final(self).img_width * final(self).img_height,
            out@ == spec_image_bytes(
                spec_initialize(*old(self)),
                *world,
                spec_initialize(*old(self)).img_height as int,
                old(rng)@.0,
                old(rng)@.1,
            ).0,
            final(rng)@.0 == old(rng)@.0,
            final(rng)@.1 == spec_image_bytes(
                spec_initialize(*old(self)),
                *world,
                spec_initialize(*old(self)).img_height as int,
                old(rng)@.0,
                old(rng)@.1,
            ).1,
            old(self).max_depth == 0 ==> forall|k: int| 0 <= k < out@.len() ==> out@[k] == 0,
    {
        self.initialize();
        let ghost c0 = *self;

        let mut out: Vec<u8> = Vec::new();
        let mut j: usize = 0;
        while j < self.img_height
            invariant
                camera_wf(*self),
                hittable_wf(*world),
                *self == c0,
                0 <= j <= self.img_height,
                out@.len() == 3 * self.img_width * j,
                rng@.0 == old(rng)@.0,
                out@ == spec_image_bytes(c0, *world, j as int, old(rng)@.0, old(rng)@.1).0,
                rng@.1 == spec_image_bytes(c0, *world, j as int, old(rng)@.0, old(rng)@.1).1,
                self.max_depth == 0 ==> forall|k: int| 0 <= k < out@.len() ==> out@[k] == 0,
            decreases self.img_height - j,
        {
            let ghost out0 = out@;
            let row: Vec<u8> = self.render_row(world, j, rng);
            let mut t: usize = 0;
            while t < row.len()
                invariant
                    0 <= t <= row@.len(),
                    out@.len() == 3 * self.img_width * j + t,
                    out@ == out0 + row@.subrange(0, t as int),
                    row@.len() == 3 * self.img_width,
                    self.max_depth == 0 ==> forall|k: int| 0 <= k < row@.len() ==> row@[k] == 0,
                    self.max_depth == 0 ==> forall|k: int| 0 <= k < out@.len() ==> out@[k] == 0,
                decreases row@.len() - t,
            {
                proof {
                    assert(out@.push(row@[t as int]) =~= out0 + row@.subrange(0, t as int + 1));
                }
                out.push(row[t]);
                t = t + 1;
            }
            j = j + 1;
            proof {
                assert(out@.len() == 3 * self.img_width * j) by (nonlinear_arith)
                    requires
                        out@.len() == 3 * self.img_width * (j - 1) + 3 * self.img_width,
                ;
                assert(row@.subrange(0, row@.len() as int) =~= row@);
                assert(out@ == out0 + row@);
            }
        }
        out
    }
}

/// The larger of two sizes.
fn max_usize(a: usize, b: usize) -> (r: usize)
    ensures
        r == if a >= b { a } else { b },
{
    if a >= b {
        a
    } else {
        b
    }
}

} // verus!
