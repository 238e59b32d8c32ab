//! Material models: how a ray reflects, refracts or is absorbed at a surface.
//!
//! Scattering draws random samples, so each contract states what holds of
//! every outcome: the attenuation and ray origin exactly, and the scattered
//! direction as the stated formula over some sample from the sampler.

use vstd::prelude::*;

verus! {

use crate::color::Color;
use crate::fixed::{fx_add, fx_div, fx_div_m, fx_mul, fx_mul_m, fx_neg, fx_sqrt, fx_sub, isqrt, sat64, FX_ONE};
use crate::hittable::HitRecord;
use crate::ray::Ray;
use crate::rng::random_scalar;
use crate::vec3::{
    is_unit_sample, random_unit_vector, v_add, v_dot, v_len, v_lensq, v_near_zero, v_neg,
    v_normalize, v_scale, v_sub, Vec3,
};

/// The 50% grey channel value.
pub const FX_HALF: i64 = 524288;

/// Reflection of `v` about the normal `n`: `v - 2 (v . n) n`.
pub open spec fn reflect_m(v: Vec3, n: Vec3) -> Vec3 {
    v_sub(v, v_scale(n, sat64(v_dot(v, n) + v_dot(v, n))))
}

/// The diffuse scatter direction: the normal plus a sampled vector, falling
/// back to the bare normal when the sum cancels to near zero.
pub open spec fn lambertian_dir_m(n: Vec3, u: Vec3) -> Vec3 {
    if v_near_zero(v_add(n, u)) {
        n
    } else {
        v_add(n, u)
    }
}

/// The metal scatter direction: the specular reflection perturbed by
/// `fuzz` times a sampled unit vector.
pub open spec fn metal_dir_m(v: Vec3, n: Vec3, fuzz: int, u: Vec3) -> Vec3 {
    v_add(reflect_m(v, n), v_scale(u, fuzz))
}

/// Cosine of the incidence angle, clamped to at most one.
pub open spec fn cos_theta_m(unit_dir: Vec3, n: Vec3) -> int {
    let d = v_dot(v_neg(unit_dir), n);
    if d > FX_ONE as int {
        FX_ONE as int
    } else {
        d
    }
}

/// Refraction by the perpendicular/parallel decomposition.
pub open spec fn refract_m(uv: Vec3, n: Vec3, ri: int) -> Vec3 {
    let cos = cos_theta_m(uv, n);
    let perp = v_scale(v_add(uv, v_scale(n, cos)), ri);
    let k0 = sat64(FX_ONE as int - v_lensq(perp));
    let k = if k0 < 0 { sat64(-k0) } else { k0 };
    let par = v_scale(n, sat64(-isqrt(k * FX_ONE as int)));
    v_add(perp, par)
}

/// The fifth power, associated as the executable code computes it.
pub open spec fn pow5_m(x: int) -> int {
    fx_mul_m(fx_mul_m(x, x), fx_mul_m(fx_mul_m(x, x), x))
}

/// Schlick's approximation of the reflection probability.
pub open spec fn reflectance_m(cos: int, ri: int) -> int {
    let r0 = fx_div_m(sat64(FX_ONE as int - ri), sat64(FX_ONE as int + ri));
    let r0sq = fx_mul_m(r0, r0);
    sat64(r0sq + fx_mul_m(sat64(FX_ONE as int - r0sq), pow5_m(sat64(FX_ONE as int - cos))))
}

/// The refraction-index ratio actually used: inverted when the ray comes
/// from outside the surface.
pub open spec fn ri_m(front_face: bool, refraction_index: int) -> int {
    if front_face {
        fx_div_m(FX_ONE as int, refraction_index)
    } else {
        refraction_index
    }
}

/// The dielectric scatter direction for a given uniform draw in `[0, 1)`:
/// total internal reflection is forced when `ri * sin > 1`, otherwise the
/// draw chooses between reflection and refraction by Schlick's probability.
pub open spec fn dielectric_dir_m(unit_dir: Vec3, n: Vec3, ri: int, draw: int) -> Vec3 {
    let cos = cos_theta_m(unit_dir, n);
    let sin2_0 = sat64(FX_ONE as int - fx_mul_m(cos, cos));
    let sin2 = if sin2_0 < 0 { 0 } else { sin2_0 };
    let sin = isqrt(sin2 * FX_ONE as int);
    if fx_mul_m(ri, sin) > FX_ONE as int || reflectance_m(cos, ri) > draw {
        reflect_m(unit_dir, n)
    } else {
        refract_m(unit_dir, n, ri)
    }
}

/// The scattered direction came from the dielectric model under some
/// uniform draw in `[0, 1)`.
pub open spec fn dielectric_sample_ok(sc_dir: Vec3, unit_dir: Vec3, n: Vec3, ri: int) -> bool {
    exists|dr: int|
        0 <= dr < FX_ONE as int && sc_dir == #[trigger] dielectric_dir_m(unit_dir, n, ri, dr)
}

pub open spec fn white() -> Color {
    (Color { x: FX_ONE, y: FX_ONE, z: FX_ONE })
}

pub open spec fn grey() -> Color {
    (Color { x: FX_HALF, y: FX_HALF, z: FX_HALF })
}

#[derive(Copy, Clone, Debug, PartialEq, Eq, Structural)]
pub struct DefaultMaterial;

#[derive(Copy, Clone, Debug, PartialEq, Eq, Structural)]
pub struct Lambertian {
    pub albedo: Color,
}

#[derive(Copy, Clone, Debug, PartialEq, Eq, Structural)]
pub struct Metal {
    pub albedo: Color,
    pub fuzz: i64,
}

#[derive(Copy, Clone, Debug, PartialEq, Eq, Structural)]
pub struct Dielectric {
    pub refraction_index: i64,
}

#[derive(Copy, Clone, Debug, PartialEq, Eq, Structural)]
pub enum Material {
    Default(DefaultMaterial),
    Lambertian(Lambertian),
    Metal(Metal),
    Dielectric(Dielectric),
}

/// Well-formedness of a material: a dielectric needs a positive refraction
/// index, a metal a fuzz in `[0, 1]`.
pub open spec fn mat_wf(m: Material) -> bool {
    match m {
        Material::Default(_) => true,
        Material::Lambertian(_) => true,
        Material::Metal(mt) => 0 <= mt.fuzz <= FX_ONE,
        Material::Dielectric(d) => d.refraction_index > 0,
    }
}

/// The scatter contract shared by every material: given the incoming ray and
/// hit record, how the attenuation and scattered ray relate to their prior
/// values and whether the path continues.
pub open spec fn scatter_post(
    m: Material,
    r_in: Ray,
    rec: HitRecord,
    att0: Color,
    att: Color,
    sc0: Ray,
    sc: Ray,
    result: bool,
) -> bool {
    match m {
        Material::Lambertian(l) => result && att == l.albedo && sc.origin == rec.p && (exists|
            u: Vec3,
        |
            #[trigger] is_unit_sample(u) && sc.dir == lambertian_dir_m(rec.normal, u)),
        Material::Default(_) => result && att == grey() && sc.origin == rec.p && (exists|u: Vec3|
            #[trigger] is_unit_sample(u) && sc.dir == lambertian_dir_m(rec.normal, u)),
        Material::Metal(mt) => att == mt.albedo && sc.origin == rec.p && result == (v_dot(
            sc.dir,
            rec.normal,
        ) > 0) && (exists|u: Vec3|
            #[trigger] is_unit_sample(u) && sc.dir == metal_dir_m(
                r_in.dir,
                rec.normal,
                mt.fuzz as int,
                u,
            )) && (mt.fuzz == 0 ==> sc.dir == reflect_m(r_in.dir, rec.normal)),
        Material::Dielectric(d) => if v_len(r_in.dir) != 0 {
            result && att == white() && sc.origin == rec.p && dielectric_sample_ok(
                sc.dir,
                v_normalize(r_in.dir),
                rec.normal,
                ri_m(rec.front_face, d.refraction_index as int),
            )
        } else {
            !result && att == att0 && sc == sc0
        },
    }
}

/// Attenuation never amplifies: diffuse and metal scattering attenuate by
/// exactly the albedo, so no channel exceeds it, and a scattering
/// dielectric attenuates by exactly white.
pub proof fn lemma_attenuation_bounded(
    m: Material,
    r_in: Ray,
    rec: HitRecord,
    att0: Color,
    att: Color,
    sc0: Ray,
    sc: Ray,
    result: bool,
)
    requires scatter_post(m, r_in, rec, att0, att, sc0, sc, result),
    ensures
        m matches Material::Lambertian(l) ==> att.x <= l.albedo.x && att.y <= l.albedo.y && att.z
            <= l.albedo.z,
        m matches Material::Metal(mt) ==> att.x <= mt.albedo.x && att.y <= mt.albedo.y && att.z
            <= mt.albedo.z,
        (m matches Material::Dielectric(d) && result) ==> att == white(),
{
}

/// In exact integer arithmetic the specular reflection `v - 2 (v . n) n`
/// leaves the magnitude of the dot product with the normal unchanged: with
/// a unit normal (`n . n == 1`) the outgoing dot product is the negation of
/// the incoming one, so the outgoing angle equals the incoming angle.
pub proof fn lemma_reflect_specular_exact(vx: int, vy: int, vz: int, nx: int, ny: int, nz: int)
    ensures
        ({
            let d = vx * nx + vy * ny + vz * nz;
            let nn = nx * nx + ny * ny + nz * nz;
            let rx = vx - 2 * d * nx;
            let ry = vy - 2 * d * ny;
            let rz = vz - 2 * d * nz;
            rx * nx + ry * ny + rz * nz == d - 2 * d * nn
        }),
        ({
            let d = vx * nx + vy * ny + vz * nz;
            let nn = nx * nx + ny * ny + nz * nz;
            let rx = vx - 2 * d * nx;
            let ry = vy - 2 * d * ny;
            let rz = vz - 2 * d * nz;
            nn == 1 ==> rx * nx + ry * ny + rz * nz == -d
        }),
{
    let d = vx * nx + vy * ny + vz * nz;
    let nn = nx * nx + ny * ny + nz * nz;
    assert((vx - 2 * d * nx) * nx == vx * nx - 2 * d * (nx * nx)) by (nonlinear_arith);
    assert((vy - 2 * d * ny) * ny == vy * ny - 2 * d * (ny * ny)) by (nonlinear_arith);
    assert((vz - 2 * d * nz) * nz == vz * nz - 2 * d * (nz * nz)) by (nonlinear_arith);
    assert(2 * d * (nx * nx) + 2 * d * (ny * ny) + 2 * d * (nz * nz) == 2 * d * nn)
        by (nonlinear_arith)
        requires nn == nx * nx + ny * ny + nz * nz,
    ;
}

/// `v - 2 (v . n) n`.
pub fn reflect(v: &Vec3, n: &Vec3) -> (r: Vec3)
    ensures r == reflect_m(*v, *n),
{
    let d: i64 = v.dot(n);
    v.sub(&n.scale(fx_add(d, d)))
}

/// Refraction of the unit direction `uv` at a surface with normal `n` and
/// refraction-index ratio `ri`.
pub fn refract(uv: &Vec3, n: &Vec3, ri: i64) -> (r: Vec3)
    ensures r == refract_m(*uv, *n, ri as int),
{
    let d: i64 = uv.neg().dot(n);
    let cos_theta: i64 = if d > FX_ONE { FX_ONE } else { d };
    let r_out_perp = uv.add(&n.scale(cos_theta)).scale(ri);
    let k0: i64 = fx_sub(FX_ONE, r_out_perp.length_squared());
    let k: i64 = if k0 < 0 { fx_neg(k0) } else { k0 };
    let r_out_parallel = n.scale(fx_neg(fx_sqrt(k)));
    r_out_perp.add(&r_out_parallel)
}

/// Schlick's approximation, computed in fixed point.
pub fn reflectance(cos: i64, ri: i64) -> (r: i64)
    requires ri >= 0,
    ensures r as int == reflectance_m(cos as int, ri as int),
{
    let r0: i64 = fx_div(fx_sub(FX_ONE, ri), fx_add(FX_ONE, ri));
    let r0sq: i64 = fx_mul(r0, r0);
    let omc: i64 = fx_sub(FX_ONE, cos);
    let p5: i64 = fx_mul(fx_mul(omc, omc), fx_mul(fx_mul(omc, omc), omc));
    fx_add(r0sq, fx_mul(fx_sub(FX_ONE, r0sq), p5))
}

impl Lambertian {
    pub fn new(albedo: Color) -> (r: Self)
        ensures r.albedo == albedo,
    {
        Lambertian { albedo }
    }

    pub fn scatter(
        &self,
        r_in: &Ray,
        rec: &HitRecord,
        attenuation: &mut Color,
        scattered: &mut Ray,
    ) -> (result: bool)
        ensures
            scatter_post(
                Material::Lambertian(*self),
                *r_in,
                *rec,
                *old(attenuation),
                *final(attenuation),
                *old(scattered),
                *final(scattered),
                result,
            ),
    {
        let u = random_unit_vector();
        let sum = rec.normal.add(&u);
        let scatter_direction = if sum.near_zero() {
            rec.normal
        } else {
            sum
        };
        *scattered = Ray::new(rec.p, scatter_direction);
        *attenuation = self.albedo;
        proof {
            assert(is_unit_sample(u) && final(scattered).dir == lambertian_dir_m(rec.normal, u));
        }
        true
    }
}

impl DefaultMaterial {
    pub fn scatter(
        &self,
        r_in: &Ray,
        rec: &HitRecord,
        attenuation: &mut Color,
        scattered: &mut Ray,
    ) -> (result: bool)
        ensures
            scatter_post(
                Material::Default(*self),
                *r_in,
                *rec,
                *old(attenuation),
                *final(attenuation),
                *old(scattered),
                *final(scattered),
                result,
            ),
    {
        let u = random_unit_vector();
        let sum = rec.normal.add(&u);
        let scatter_direction = if sum.near_zero() {
            rec.normal
        } else {
            sum
        };
        *scattered = Ray::new(rec.p, scatter_direction);
        *attenuation = Vec3::new(FX_HALF, FX_HALF, FX_HALF);
        proof {
            assert(is_unit_sample(u) && final(scattered).dir == lambertian_dir_m(rec.normal, u));
        }
        true
    }
}

impl Default for DefaultMaterial {
    fn default() -> (r: Self)
        ensures r == DefaultMaterial,
    {
        DefaultMaterial
    }
}

impl Metal {
    /// The fuzz radius is clamped into `[0, 1]` at construction.
    pub fn new(albedo: Color, fuzz: i64) -> (r: Self)
        ensures
            r.albedo == albedo,
            r.fuzz == (if fuzz < 0 {
                0i64
            } else if fuzz > FX_ONE {
                FX_ONE
            } else {
                fuzz
            }),
    {
        let f: i64 = if fuzz < 0 {
            0
        } else if fuzz > FX_ONE {
            FX_ONE
        } else {
            fuzz
        };
        Metal { albedo, fuzz: f }
    }

    pub fn scatter(
        &self,
        r_in: &Ray,
        rec: &HitRecord,
        attenuation: &mut Color,
        scattered: &mut Ray,
    ) -> (result: bool)
        ensures
            scatter_post(
                Material::Metal(*self),
                *r_in,
                *rec,
                *old(attenuation),
                *final(attenuation),
                *old(scattered),
                *final(scattered),
                result,
            ),
    {
        let reflected = reflect(&r_in.direction(), &rec.normal);
        let u = random_unit_vector();
        let dir = reflected.add(&u.scale(self.fuzz));
        *scattered = Ray::new(rec.p, dir);
        *attenuation = self.albedo;
        proof {
            assert(is_unit_sample(u) && final(scattered).dir == metal_dir_m(
                r_in.dir,
                rec.normal,
                self.fuzz as int,
                u,
            ));
            if self.fuzz == 0 {
                crate::fixed::lemma_fx_mul_zero(u.x as int);
                crate::fixed::lemma_fx_mul_zero(u.y as int);
                crate::fixed::lemma_fx_mul_zero(u.z as int);
            }
        }
        scattered.direction().dot(&rec.normal) > 0
    }
}

impl Dielectric {
    pub fn new(refraction_index: i64) -> (r: Self)
        ensures r.refraction_index == refraction_index,
    {
        Dielectric { refraction_index }
    }

    #[verifier::rlimit(50)]
    pub fn scatter(
        &self,
        r_in: &Ray,
        rec: &HitRecord,
        attenuation: &mut Color,
        scattered: &mut Ray,
    ) -> (result: bool)
        requires self.refraction_index > 0,
        ensures
            scatter_post(
                Material::Dielectric(*self),
                *r_in,
                *rec,
                *old(attenuation),
                *final(attenuation),
                *old(scattered),
                *final(scattered),
                result,
            ),
    {
        let len: i64 = r_in.direction().length();
        if len == 0 {
            return false;
        }
        let ri: i64 = if rec.front_face {
            fx_div(FX_ONE, self.refraction_index)
        } else {
            self.refraction_index
        };
        proof {
            lemma_inv_nonneg(self.refraction_index as int);
        }
        let unit_direction = r_in.direction().normalize();
        let d: i64 = unit_direction.neg().dot(&rec.normal);
        let cos_theta: i64 = if d > FX_ONE { FX_ONE } else { d };
        let sin2_0: i64 = fx_sub(FX_ONE, fx_mul(cos_theta, cos_theta));
        let sin2: i64 = if sin2_0 < 0 { 0 } else { sin2_0 };
        let sin_theta: i64 = fx_sqrt(sin2);
        let cannot_refract: bool = fx_mul(ri, sin_theta) > FX_ONE;
        let draw: i64 = random_scalar();
        let direction = if cannot_refract || reflectance(cos_theta, ri) > draw {
            reflect(&unit_direction, &rec.normal)
        } else {
            refract(&unit_direction, &rec.normal, ri)
        };
        *scattered = Ray::new(rec.p, direction);
        *attenuation = Vec3::new(FX_ONE, FX_ONE, FX_ONE);
        proof {
            assert(0 <= draw < FX_ONE as int && final(scattered).dir == dielectric_dir_m(
                v_normalize(r_in.dir),
                rec.normal,
                ri_m(rec.front_face, self.refraction_index as int),
                draw as int,
            ));
            assert(dielectric_sample_ok(
                final(scattered).dir,
                v_normalize(r_in.dir),
                rec.normal,
                ri_m(rec.front_face, self.refraction_index as int),
            ));
        }
        true
    }
}

/// The fixed-point reciprocal of a positive scalar is non-negative.
proof fn lemma_inv_nonneg(x: int)
    requires x > 0,
    ensures fx_div_m(FX_ONE as int, x) >= 0,
{
    assert(crate::fixed::abs_i(FX_ONE as int) * (FX_ONE as int) >= 0) by (nonlinear_arith);
    assert((crate::fixed::abs_i(FX_ONE as int) * (FX_ONE as int)) / crate::fixed::abs_i(x) >= 0)
        by (nonlinear_arith)
        requires
            crate::fixed::abs_i(FX_ONE as int) * (FX_ONE as int) >= 0,
            crate::fixed::abs_i(x) > 0,
    ;
}

impl Material {
    /// Dispatch to the variant's scatter model.
    pub fn scatter(
        &self,
        r_in: &Ray,
        rec: &HitRecord,
        attenuation: &mut Color,
        scattered: &mut Ray,
    ) -> (result: bool)
        requires mat_wf(*self),
        ensures
            scatter_post(
                *self,
                *r_in,
                *rec,
                *old(attenuation),
                *final(attenuation),
                *old(scattered),
                *final(scattered),
                result,
            ),
    {
        match self {
            Material::Default(m) => m.scatter(r_in, rec, attenuation, scattered),
            Material::Lambertian(m) => m.scatter(r_in, rec, attenuation, scattered),
            Material::Metal(m) => m.scatter(r_in, rec, attenuation, scattered),
            Material::Dielectric(m) => m.scatter(r_in, rec, attenuation, scattered),
        }
    }
}

} // verus!
