//! Materials: the closed set of scattering behaviours a surface can
//! have, dispatched by a single match in the scatter and emission
//! routines.

use vstd::prelude::*;
use crate::fixed::{
    fp_add, fp_sub, fp_mul, fp_div, fp_min, fp_max, in_fp,
    spec_add, spec_sub, spec_neg, spec_mul, spec_div, spec_sqrt, ONE,
};
use crate::hittable::{HitRecord, hr_wf};
use crate::ray::Ray;
use crate::rng::{RandomSource, std_rng_next};
use crate::spec_unit_draw;
use crate::vec3::{
    Vec3, vec_wf, Vector3Ext, reflect, refract, random_unit_vector, spec_unit_sample,
    spec_vadd, spec_vneg, spec_vscale, spec_dot, spec_vnormalize, spec_reflect, spec_refract,
};

verus! {

/// The material that absorbs everything and emits nothing.
#[derive(Clone, Copy, PartialEq, Eq, Structural, Debug)]
pub struct DefaultMaterial;

/// A diffuse surface with a fixed reflectance colour.
#[derive(Clone, Copy, PartialEq, Eq, Structural, Debug)]
pub struct Lambertian {
    pub albedo: Vec3,
}

/// A reflective surface with a roughness that perturbs the mirror
/// direction.
#[derive(Clone, Copy, PartialEq, Eq, Structural, Debug)]
pub struct Metal {
    pub albedo: Vec3,
    pub fuzz: i64,
}

/// A transparent surface refracting by Snell's law.
#[derive(Clone, Copy, PartialEq, Eq, Structural, Debug)]
pub struct Dielectric {
    pub refraction_index: i64,
}

/// A surface that only emits light.
#[derive(Clone, Copy, PartialEq, Eq, Structural, Debug)]
pub struct DiffuseLight {
    pub emit: Vec3,
}

/// Every way a surface can answer a hit.
#[derive(Clone, Copy, PartialEq, Eq, Structural, Debug)]
pub enum Material {
    Default(DefaultMaterial),
    Lambertian(Lambertian),
    Metal(Metal),
    Dielectric(Dielectric),
    DiffuseLight(DiffuseLight),
}

/// All numeric fields within the representable range.
pub open spec fn material_wf(m: Material) -> bool {
    match m {
        Material::Default(_) => true,
        Material::Lambertian(l) => vec_wf(l.albedo),
        Material::Metal(mt) => vec_wf(mt.albedo) && in_fp(mt.fuzz as int),
        Material::Dielectric(d) => in_fp(d.refraction_index as int),
        Material::DiffuseLight(dl) => vec_wf(dl.emit),
    }
}

impl DefaultMaterial {
    /// The absorbing material.
    pub fn new() -> (r: DefaultMaterial)
        ensures
            r == DefaultMaterial,
    {
        DefaultMaterial
    }
}

impl Lambertian {
    /// A diffuse surface with the given reflectance colour.
    pub fn new(albedo: Vec3) -> (r: Lambertian)
        ensures
            r == (Lambertian { albedo }),
    {
        Lambertian { albedo }
    }
}

impl Metal {
    /// A reflective surface; the roughness is clamped into `[0, 1]`.
    pub fn new(albedo: Vec3, fuzz: i64) -> (r: Metal)
        ensures
            r.albedo == albedo,
            r.fuzz == if fuzz < 0 {
                0i64
            } else if fuzz > ONE {
                ONE
            } else {
                fuzz
            },
    {
        Metal { albedo, fuzz: fp_max(fp_min(fuzz, ONE), 0) }
    }
}

impl Dielectric {
    /// A transparent surface with the given refractive index.
    pub fn new(refraction_index: i64) -> (r: Dielectric)
        ensures
            r == (Dielectric { refraction_index }),
    {
        Dielectric { refraction_index }
    }

    /// What Schlick's closed-form estimate of Fresnel reflectance returns.
    pub open spec fn spec_reflectance(cosine: int, refraction_index: int) -> int {
        let r0 = spec_div(spec_sub(ONE as int, refraction_index), spec_add(ONE as int, refraction_index));
        let r0sq = spec_mul(r0, r0);
        let p = spec_sub(ONE as int, cosine);
        let p2 = spec_mul(p, p);
        let p4 = spec_mul(p2, p2);
        let p5 = spec_mul(p4, p);
        spec_add(r0sq, spec_mul(spec_sub(ONE as int, r0sq), p5))
    }

    /// Schlick's approximation for reflectance.
    fn reflectance(cosine: i64, refraction_index: i64) -> (r: i64)
        requires
            in_fp(cosine as int),
            in_fp(refraction_index as int),
        ensures
            r as int == Dielectric::spec_reflectance(cosine as int, refraction_index as int),
            in_fp(r as int),
    {
        let r0: i64 = fp_div(fp_sub(ONE, refraction_index), fp_add(ONE, refraction_index));
        let r0sq: i64 = fp_mul(r0, r0);
        let p: i64 = fp_sub(ONE, cosine);
        let p2: i64 = fp_mul(p, p);
        let p4: i64 = fp_mul(p2, p2);
        let p5: i64 = fp_mul(p4, p);
        fp_add(r0sq, fp_mul(fp_sub(ONE, r0sq), p5))
    }

}

impl DiffuseLight {
    /// A light with the given emission colour.
    pub fn new(emit: Vec3) -> (r: DiffuseLight)
        ensures
            r == (DiffuseLight { emit }),
    {
        DiffuseLight { emit }
    }
}

/// What a material emits, independent of position.
pub open spec fn spec_emitted(m: Material) -> Vec3 {
    match m {
        Material::DiffuseLight(dl) => dl.emit,
        _ => Vec3 { x: 0i64, y: 0i64, z: 0i64 },
    }
}

/// What scattering returns, as a function of the material, the incoming
/// ray, the hit, the two output slots as handed in, and the random
/// stream from its current position: whether it scattered, the
/// attenuation, the scattered ray, and where the stream ends up. The
/// no-scatter materials touch neither the slots nor the stream; the
/// diffuse and reflective ones consume one unit-direction sample; the
/// transparent one consumes one draw, except under total internal
/// reflection, which consumes none.
#[verifier::opaque]
pub open spec fn spec_scatter(
    m: Material,
    r_in: Ray,
    rec: HitRecord,
    att0: Vec3,
    sc0: Ray,
    seed: u64,
    idx: nat,
) -> (bool, Vec3, Ray, nat) {
    match m {
        Material::Default(_) => (false, att0, sc0, idx),
        Material::DiffuseLight(_) => (false, att0, sc0, idx),
        Material::Lambertian(l) => {
            let u = spec_unit_sample(seed, idx);
            let sum = spec_vadd(rec.normal, u.0);
            let dir = if sum.near_zero_spec() {
                rec.normal
            } else {
                sum
            };
            (true, l.albedo, Ray { orig: rec.p, dir }, u.1)
        },
        Material::Metal(mt) => {
            let u = spec_unit_sample(seed, idx);
            let dir = spec_vadd(
                spec_vnormalize(spec_reflect(r_in.dir, rec.normal)),
                spec_vscale(u.0, mt.fuzz as int),
            );
            (spec_dot(dir, rec.normal) > 0, mt.albedo, Ray { orig: rec.p, dir }, u.1)
        },
        Material::Dielectric(d) => {
            let white = Vec3 { x: ONE, y: ONE, z: ONE };
            let ri = if rec.front_face {
                spec_div(ONE as int, d.refraction_index as int)
            } else {
                d.refraction_index as int
            };
            let unit = spec_vnormalize(r_in.dir);
            let cd = spec_dot(spec_vneg(unit), rec.normal);
            let cos = if cd <= ONE as int {
                cd
            } else {
                ONE as int
            };
            let sin = spec_sqrt(spec_sub(ONE as int, spec_mul(cos, cos)));
            if spec_mul(ri, sin) > ONE as int {
                (true, white, Ray { orig: rec.p, dir: spec_reflect(unit, rec.normal) }, idx)
            } else {
                let u = spec_unit_draw(std_rng_next(seed, idx));
                let dir = if Dielectric::spec_reflectance(cos, ri) > u {
                    spec_reflect(unit, rec.normal)
                } else {
                    spec_refract(unit, rec.normal, ri)
                };
                (true, white, Ray { orig: rec.p, dir }, (idx + 1) as nat)
            }
        },
    }
}

impl Material {
    /// Whether the material scatters the incoming ray, and if so into
    /// which ray and with which attenuation. Each variant's behaviour is
    /// pinned below; the scattered direction of the stochastic variants
    /// is pinned up to the random unit vector drawn inside.
    pub fn scatter(
        &self,
        r_in: &Ray,
        rec: &HitRecord,
        attenuation: &mut Vec3,
        scattered: &mut Ray,
        rng: &mut RandomSource,
    ) -> (res: bool)
        requires
            material_wf(*self),
            crate::ray::ray_wf(*r_in),
            hr_wf(*rec),
            vec_wf(*old(attenuation)),
            crate::ray::ray_wf(*old(scattered)),
        ensures
            final(rng)@.0 == old(rng)@.0,
            vec_wf(*final(attenuation)),
            crate::ray::ray_wf(*final(scattered)),
            (res, *final(attenuation), *final(scattered), final(rng)@.1) == spec_scatter(
                *self,
                *r_in,
                *rec,
                *old(attenuation),
                *old(scattered),
                old(rng)@.0,
                old(rng)@.1,
            ),
    {
        proof {
            reveal(spec_scatter);
        }
        match self {
            Material::Default(_) => false,
            Material::DiffuseLight(_) => false,
            Material::Lambertian(l) => {
                let uv: Vec3 = random_unit_vector(rng);
                let sum: Vec3 = rec.normal.add(&uv);
                let scatter_direction: Vec3 = if sum.near_zero() { rec.normal } else { sum };
                *scattered = Ray::new(rec.p, scatter_direction);
                *attenuation = l.albedo;
                true
            },
            Material::Metal(mt) => {
                let reflected: Vec3 = reflect(r_in.direction(), &rec.normal);
                let uv: Vec3 = random_unit_vector(rng);
                let dir: Vec3 = reflected.normalize().add(&uv.scale(mt.fuzz));
                *scattered = Ray::new(rec.p, dir);
                *attenuation = mt.albedo;
                scattered.direction().dot(&rec.normal) > 0
            },
            Material::Dielectric(d) => {
                *attenuation = Vec3::new(ONE, ONE, ONE);
                let ri: i64 = if rec.front_face {
                    fp_div(ONE, d.refraction_index)
                } else {
                    d.refraction_index
                };
                let unit_direction: Vec3 = r_in.direction().normalize();
                let cos_theta: i64 = fp_min(unit_direction.neg().dot(&rec.normal), ONE);
                let sin_theta: i64 = crate::fixed::fp_sqrt(fp_sub(ONE, fp_mul(cos_theta, cos_theta)));
                let cannot_refract: bool = fp_mul(ri, sin_theta) > ONE;
                let direction: Vec3 = if cannot_refract {
                    reflect(&unit_direction, &rec.normal)
                } else {
                    let u: i64 = crate::random_double(rng);
                    if Dielectric::reflectance(cos_theta, ri) > u {
                        reflect(&unit_direction, &rec.normal)
                    } else {
                        refract(&unit_direction, &rec.normal, ri)
                    }
                };
                *scattered = Ray::new(rec.p, direction);
                true
            },
        }
    }

    /// What the material emits at a hit point: lights return their
    /// emission colour, every other variant returns black.
    pub fn emitted(&self, _u: i64, _v: i64, _p: &Vec3) -> (r: Vec3)
        ensures
            r == spec_emitted(*self),
    {
        match self {
            Material::DiffuseLight(dl) => dl.emit,
            _ => Vec3::zero(),
        }
    }
}

/// The variants a material can be built as, selected by name.
pub enum DefaultPalette {
    DefaultMaterial,
    Lambertian,
    Metal,
    Dielectric,
    DiffuseLight,
}

/// A material of the selected variant; the arguments a variant does not
/// use are ignored.
pub fn create_material(
    palette: DefaultPalette,
    color: Vec3,
    fuzz: i64,
    refraction_index: i64,
    emit: Vec3,
) -> (r: Material)
    requires
        vec_wf(color),
        in_fp(fuzz as int),
        in_fp(refraction_index as int),
        vec_wf(emit),
    ensures
        material_wf(r),
        match palette {
            DefaultPalette::DefaultMaterial => r == Material::Default(DefaultMaterial),
            DefaultPalette::Lambertian => r == Material::Lambertian(Lambertian { albedo: color }),
            DefaultPalette::Metal => r matches Material::Metal(m) && m.albedo == color,
            DefaultPalette::Dielectric => r == Material::Dielectric(Dielectric { refraction_index }),
            DefaultPalette::DiffuseLight => r == Material::DiffuseLight(DiffuseLight { emit }),
        },
{
    match palette {
        DefaultPalette::DefaultMaterial => Material::Default(DefaultMaterial::new()),
        DefaultPalette::Lambertian => Material::Lambertian(Lambertian::new(color)),
        DefaultPalette::Metal => Material::Metal(Metal::new(color, fuzz)),
        DefaultPalette::Dielectric => Material::Dielectric(Dielectric::new(refraction_index)),
        DefaultPalette::DiffuseLight => Material::DiffuseLight(DiffuseLight::new(emit)),
    }
}

/// Stock diffuse colours.
pub enum StandardColor {
    Red,
    Green,
    Blue,
    White,
    Black,
    Grey,
    Yellow,
    Purple,
}

/// A diffuse material in one of the stock colours.
pub fn create_standard_material(palette: StandardColor) -> (r: Material)
    ensures
        material_wf(r),
        r matches Material::Lambertian(_),
{
    match palette {
        StandardColor::Red => Material::Lambertian(Lambertian::new(Vec3::new(42598, 3277, 3277))),
        StandardColor::Green => Material::Lambertian(Lambertian::new(Vec3::new(7864, 29491, 9830))),
        StandardColor::Blue => Material::Lambertian(Lambertian::new(Vec3::new(6554, 6554, 45875))),
        StandardColor::White => Material::Lambertian(Lambertian::new(Vec3::new(47841, 47841, 47841))),
        StandardColor::Black => Material::Lambertian(Lambertian::new(Vec3::new(0, 0, 0))),
        StandardColor::Grey => Material::Lambertian(Lambertian::new(Vec3::new(32768, 32768, 32768))),
        StandardColor::Yellow => Material::Lambertian(Lambertian::new(Vec3::new(58982, 58982, 0))),
        StandardColor::Purple => Material::Lambertian(Lambertian::new(Vec3::new(32768, 0, 32768))),
    }
}

/// Stock metals.
pub enum StandardMetal {
    Gold,
    Silver,
    Copper,
    Aluminium,
}

/// A metal in one of the stock tints, with the given roughness.
pub fn create_standard_metal(palette: StandardMetal, fuzz: i64) -> (r: Material)
    requires
        in_fp(fuzz as int),
    ensures
        material_wf(r),
        r matches Material::Metal(_),
{
    match palette {
        StandardMetal::Gold => Material::Metal(Metal::new(Vec3::new(52429, 39322, 13107), fuzz)),
        StandardMetal::Silver => Material::Metal(Metal::new(Vec3::new(58982, 58982, 58982), fuzz)),
        StandardMetal::Copper => Material::Metal(Metal::new(Vec3::new(47186, 29491, 13107), fuzz)),
        StandardMetal::Aluminium => Material::Metal(Metal::new(Vec3::new(52429, 55706, 57672), fuzz)),
    }
}

/// Stock transparent media.
pub enum StandardGlasses {
    Water,
    Glass,
    Diamond,
}

/// A dielectric with the refractive index of one of the stock media.
pub fn create_standard_glass(palette: StandardGlasses) -> (r: Material)
    ensures
        material_wf(r),
        r matches Material::Dielectric(_),
{
    match palette {
        StandardGlasses::Water => Material::Dielectric(Dielectric::new(87360)),
        StandardGlasses::Glass => Material::Dielectric(Dielectric::new(98304)),
        StandardGlasses::Diamond => Material::Dielectric(Dielectric::new(158597)),
    }
}

/// Stock light colours.
pub enum LightColor {
    White,
    Yellow,
    Red,
    Green,
    Blue,
    Purple,
}

/// A diffuse light in one of the stock colours.
pub fn create_light_material(palette: LightColor) -> (r: Material)
    ensures
        material_wf(r),
        r matches Material::DiffuseLight(_),
{
    match palette {
        LightColor::White => Material::DiffuseLight(DiffuseLight::new(Vec3::new(458752, 458752, 458752))),
        LightColor::Yellow => Material::DiffuseLight(DiffuseLight::new(Vec3::new(ONE, ONE, 0))),
        LightColor::Red => Material::DiffuseLight(DiffuseLight::new(Vec3::new(ONE, 0, 0))),
        LightColor::Green => Material::DiffuseLight(DiffuseLight::new(Vec3::new(0, ONE, 0))),
        LightColor::Blue => Material::DiffuseLight(DiffuseLight::new(Vec3::new(0, 0, ONE))),
        LightColor::Purple => Material::DiffuseLight(DiffuseLight::new(Vec3::new(ONE, 0, ONE))),
    }
}

} // verus!
