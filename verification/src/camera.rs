//! Camera and recursive color integrator.
//!
//! An explicit initialization step derives the viewing frustum from the
//! extrinsic parameters; per-pixel rays are jittered for antialiasing and,
//! when the defocus angle is positive, originate on a thin-lens disk. The
//! recursive estimator is bounded by `max_depth` and its terminal cases are
//! stated exactly: black at depth zero, the sky gradient on a miss.

use vstd::prelude::*;

verus! {

use crate::color::{quantize_m, write_color, Color};
use crate::fixed::{fx_add, fx_div, fx_div_m, fx_mul, fx_mul_m, fx_sub, sat64, FX_ONE};
use crate::hittable::HitRecord;
use crate::hittable_list::{hittable_hit_t, hittable_rec, hittable_wf, list_best_t, list_wf, Hittable, HittableList};
use crate::interval::Interval;
use crate::material::{mat_wf, scatter_post, white, Material, FX_HALF};
use crate::ray::Ray;
use crate::rng::random_scalar;
use crate::trig::{fx_tan, fx_tan_m, FX_TWO};
use crate::vec3::{
    v_add, v_cmul, v_cross, v_div, v_len, v_lensq, v_neg, v_normalize, v_scale, v_sub, Point3,
    Vec3,
};

/// Degrees-to-radians factor in fixed point.
pub const FX_PI_OVER_180: i64 = 18301;

/// The lower end of every primary search interval, excluding
/// self-intersection near zero.
pub const RAY_T_MIN: i64 = 1049;

/// The largest image dimension the renderer accepts.
pub const MAX_DIM: usize = 16383;

pub const SKY_R: i64 = 524288;

pub const SKY_G: i64 = 734003;

pub const SKY_B: i64 = 1048576;

#[derive(Copy, Clone, Debug, PartialEq, Eq, Structural)]
pub struct CameraParams {
    pub aspect_ratio: i64,
    pub img_width: usize,
    pub samples_per_pixel: u32,
    pub max_depth: u32,
    pub vfov: i64,
    pub lookfrom: Point3,
    pub lookat: Point3,
    pub vup: Vec3,
    pub defocus_angle: i64,
    pub focus_dist: i64,
}

#[derive(Copy, Clone, Debug, PartialEq, Eq, Structural)]
pub struct Camera {
    pub aspect_ratio: i64,
    pub img_width: usize,
    pub img_height: usize,
    pub samples_per_pixel: u32,
    pub max_depth: u32,
    pub vfov: i64,
    pub lookfrom: Point3,
    pub lookat: Point3,
    pub vup: Vec3,
    pub defocus_angle: i64,
    pub focus_dist: i64,
    pub pixel_samples_scale: i64,
    pub center: Point3,
    pub pixel00_loc: Point3,
    pub pixel_delta_u: Vec3,
    pub pixel_delta_v: Vec3,
    pub u: Vec3,
    pub v: Vec3,
    pub w: Vec3,
    pub defocus_disk_u: Vec3,
    pub defocus_disk_v: Vec3,
}

/// Image height: width over aspect ratio, rounded to nearest, floored at one.
pub open spec fn height_model(width: int, aspect: int) -> int {
    let v = fx_div_m(width * FX_ONE as int, aspect);
    let h = (v + FX_HALF as int) / (FX_ONE as int);
    if h < 1 {
        1
    } else {
        h
    }
}

/// Every derived field of an initialized camera, from the extrinsics.
pub open spec fn cam_init_model(c: Camera) -> Camera {
    let hh = height_model(c.img_width as int, c.aspect_ratio as int);
    let wf = c.img_width as int * FX_ONE as int;
    let hf = hh * FX_ONE as int;
    let scale = fx_div_m(FX_ONE as int, c.samples_per_pixel as int * FX_ONE as int);
    let center = c.lookfrom;
    let theta = fx_mul_m(c.vfov as int, FX_PI_OVER_180 as int);
    let htan = fx_tan_m(fx_div_m(theta, FX_TWO as int));
    let viewport_height = fx_mul_m(fx_mul_m(FX_TWO as int, htan), c.focus_dist as int);
    let viewport_width = fx_mul_m(viewport_height, fx_div_m(wf, hf));
    let wb = v_normalize(v_sub(c.lookfrom, c.lookat));
    let ub = v_normalize(v_cross(c.vup, wb));
    let vb = v_cross(wb, ub);
    let viewport_u = v_scale(ub, viewport_width);
    let viewport_v = v_scale(v_neg(vb), viewport_height);
    let pdu = v_div(viewport_u, wf);
    let pdv = v_div(viewport_v, hf);
    let upper_left = v_sub(
        v_sub(v_sub(center, v_scale(wb, c.focus_dist as int)), v_div(viewport_u, FX_TWO as int)),
        v_div(viewport_v, FX_TWO as int),
    );
    let pixel00 = v_add(upper_left, v_scale(v_add(pdu, pdv), FX_HALF as int));
    let defocus_radius = fx_mul_m(
        c.focus_dist as int,
        fx_tan_m(fx_mul_m(fx_div_m(c.defocus_angle as int, FX_TWO as int), FX_PI_OVER_180 as int)),
    );
    (Camera {
        aspect_ratio: c.aspect_ratio,
        img_width: c.img_width,
        img_height: hh as usize,
        samples_per_pixel: c.samples_per_pixel,
        max_depth: c.max_depth,
        vfov: c.vfov,
        lookfrom: c.lookfrom,
        lookat: c.lookat,
        vup: c.vup,
        defocus_angle: c.defocus_angle,
        focus_dist: c.focus_dist,
        pixel_samples_scale: scale as i64,
        center,
        pixel00_loc: pixel00,
        pixel_delta_u: pdu,
        pixel_delta_v: pdv,
        u: ub,
        v: vb,
        w: wb,
        defocus_disk_u: v_scale(ub, defocus_radius),
        defocus_disk_v: v_scale(vb, defocus_radius),
    })
}

/// The preconditions of `initialize`, stated over the extrinsics.
pub open spec fn can_init(c: Camera) -> bool {
    &&& 1 <= c.img_width <= MAX_DIM
    &&& c.aspect_ratio > 0
    &&& c.samples_per_pixel >= 1
    &&& height_model(c.img_width as int, c.aspect_ratio as int) <= MAX_DIM as int
    &&& v_len(v_sub(c.lookfrom, c.lookat)) != 0
    &&& v_len(v_cross(c.vup, v_normalize(v_sub(c.lookfrom, c.lookat)))) != 0
}

/// A jitter offset lies in `[-1/2, 1/2)`.
pub open spec fn valid_offset(o: int) -> bool {
    -(FX_HALF as int) <= o < FX_HALF as int
}

/// A defocus sample lies in the closed unit disk of the xy plane.
pub open spec fn in_unit_disk(p: Vec3) -> bool {
    v_lensq(p) <= FX_ONE as int && p.z == 0
}

/// The jittered sample position for pixel `(i, j)`.
pub open spec fn pixel_sample_m(c: Camera, i: int, j: int, ox: int, oy: int) -> Vec3 {
    v_add(
        v_add(c.pixel00_loc, v_scale(c.pixel_delta_u, sat64(i * FX_ONE as int + ox))),
        v_scale(c.pixel_delta_v, sat64(j * FX_ONE as int + oy)),
    )
}

/// A point on the defocus disk.
pub open spec fn defocus_sample_m(c: Camera, p: Vec3) -> Point3 {
    v_add(v_add(c.center, v_scale(c.defocus_disk_u, p.x as int)), v_scale(c.defocus_disk_v, p.y as int))
}

/// The ray generated for pixel `(i, j)` under a given jitter and disk sample.
pub open spec fn ray_from_sample(c: Camera, i: int, j: int, ox: int, oy: int, dp: Vec3) -> Ray {
    let origin = if c.defocus_angle <= 0 {
        c.center
    } else {
        defocus_sample_m(c, dp)
    };
    (Ray { origin, dir: v_sub(pixel_sample_m(c, i, j, ox, oy), origin) })
}

pub open spec fn black() -> Color {
    (Color { x: 0i64, y: 0i64, z: 0i64 })
}

pub open spec fn sky_blue() -> Color {
    (Color { x: SKY_R, y: SKY_G, z: SKY_B })
}

/// The background gradient: white at the top, sky blue toward the horizon,
/// interpolated on the unit direction's height. Opaque: the estimator's
/// miss branch reveals it.
#[verifier::opaque]
pub open spec fn sky_color_m(r: Ray) -> Color {
    let unit = if v_len(r.dir) == 0 {
        r.dir
    } else {
        v_normalize(r.dir)
    };
    let a = fx_mul_m(FX_HALF as int, sat64(unit.y + FX_ONE as int));
    v_add(v_scale(white(), sat64(FX_ONE as int - a)), v_scale(sky_blue(), a))
}

/// A ray the generator can produce for pixel `(i, j)`: some jitter offset
/// and some defocus-disk sample admit it.
pub open spec fn admitted_ray(c: Camera, i: int, j: int, r: Ray) -> bool {
    exists|ox: int, oy: int, dp: Vec3|
        valid_offset(ox) && valid_offset(oy) && in_unit_disk(dp) && r == #[trigger] ray_from_sample(
            c,
            i,
            j,
            ox,
            oy,
            dp,
        )
}

/// A material's scatter outcome, for some prior values of the output slots.
/// Opaque: callers reveal it where they introduce a witness.
#[verifier::opaque]
pub open spec fn scatter_outcome(
    m: Material,
    r_in: Ray,
    rec: HitRecord,
    att: Color,
    sc: Ray,
    result: bool,
) -> bool {
    exists|att0: Color, sc0: Ray| #[trigger] scatter_post(m, r_in, rec, att0, att, sc0, sc, result)
}

/// The outcome at a hit record: black under absorption, or the scatter
/// attenuation componentwise-times some estimator outcome for the
/// scattered ray one depth down. Opaque: proofs reveal it one level at a
/// time.
#[verifier::opaque]
pub open spec fn hit_outcome_ok(
    objs: Seq<Hittable>,
    r: Ray,
    rec: HitRecord,
    depth: int,
    c: Color,
) -> bool
    decreases depth, 0int,
{
    if depth <= 0 {
        false
    } else {
        ||| (c == black() && (exists|att: Color, sc: Ray|
            #[trigger] scatter_outcome(rec.mat, r, rec, att, sc, false)))
        ||| (exists|att: Color, sc: Ray, c2: Color|
            #[trigger] scatter_outcome(rec.mat, r, rec, att, sc, true) && #[trigger] ray_color_rel(
                objs,
                sc,
                depth - 1,
                c2,
            ) && c == v_cmul(att, c2))
    }
}

/// Every value the recursive estimator can return for a ray at a depth:
/// black at depth zero; the exact sky gradient on a miss; otherwise a hit
/// outcome at the scene's nearest hit record. Opaque: proofs reveal it one
/// level at a time, mirroring the recursion.
#[verifier::opaque]
pub open spec fn ray_color_rel(objs: Seq<Hittable>, r: Ray, depth: int, c: Color) -> bool
    decreases depth, 1int,
{
    if depth <= 0 {
        c == black()
    } else {
        match list_best_t(objs, r, RAY_T_MIN as int, i64::MAX as int) {
            None => c == sky_color_m(r),
            Some(t) => exists|k: int|
                0 <= k < objs.len() && #[trigger] hittable_hit_t(
                    objs[k],
                    r,
                    RAY_T_MIN as int,
                    i64::MAX as int,
                ) == Some(t) && hit_outcome_ok(objs, r, hittable_rec(objs[k], r, t), depth, c),
        }
    }
}

/// The accumulated sum of `n` estimator outcomes for pixel `(i, j)`, each
/// along some admitted ray at the camera's maximal depth. Opaque: proofs
/// reveal it one level at a time, mirroring the accumulation.
#[verifier::opaque]
pub open spec fn sample_sum_ok(
    cam: Camera,
    objs: Seq<Hittable>,
    i: int,
    j: int,
    n: int,
    acc: Color,
) -> bool
    decreases n,
{
    if n <= 0 {
        acc == black()
    } else {
        exists|prev: Color, c: Color, ray: Ray|
            sample_sum_ok(cam, objs, i, j, n - 1, prev) && admitted_ray(cam, i, j, ray)
                && #[trigger] ray_color_rel(objs, ray, cam.max_depth as int, c) && acc
                == #[trigger] v_add(prev, c)
    }
}

/// The four bytes of a pixel hold the quantized, scaled color, with a
/// full-opacity alpha byte.
pub open spec fn pixel_bytes_ok(cam: Camera, acc: Color, i: int, j: int, data: Seq<u8>) -> bool {
    let px = v_scale(acc, cam.pixel_samples_scale as int);
    let idx = (j * cam.img_width + i) * 4;
    &&& data[idx] == quantize_m(px.x as int) as u8
    &&& data[idx + 1] == quantize_m(px.y as int) as u8
    &&& data[idx + 2] == quantize_m(px.z as int) as u8
    &&& data[idx + 3] == 255
}

/// Pixel `(i, j)` of the buffer quantizes the scaled sum of its
/// `samples_per_pixel` sample estimates.
pub open spec fn pixel_ok(cam: Camera, objs: Seq<Hittable>, i: int, j: int, data: Seq<u8>) -> bool {
    exists|acc: Color|
        #[trigger] sample_sum_ok(cam, objs, i, j, cam.samples_per_pixel as int, acc)
            && pixel_bytes_ok(cam, acc, i, j, data)
}

/// A successful scatter yields a hit outcome.
#[verifier::spinoff_prover]
proof fn lemma_hit_outcome_scatter(
    objs: Seq<Hittable>,
    r: Ray,
    depth: int,
    rec: HitRecord,
    att: Color,
    sc: Ray,
    c2: Color,
    out: Color,
)
    requires
        depth > 0,
        scatter_outcome(rec.mat, r, rec, att, sc, true),
        ray_color_rel(objs, sc, depth - 1, c2),
        out == v_cmul(att, c2),
    ensures hit_outcome_ok(objs, r, rec, depth, out),
{
    reveal_with_fuel(hit_outcome_ok, 1);
    assert(exists|a: Color, s2: Ray, cx: Color|
        #[trigger] scatter_outcome(rec.mat, r, rec, a, s2, true) && #[trigger] ray_color_rel(
            objs,
            s2,
            depth - 1,
            cx,
        ) && out == v_cmul(a, cx));
}

/// Absorption yields the black hit outcome.
#[verifier::spinoff_prover]
proof fn lemma_hit_outcome_absorb(
    objs: Seq<Hittable>,
    r: Ray,
    depth: int,
    rec: HitRecord,
    att: Color,
    sc: Ray,
)
    requires
        depth > 0,
        scatter_outcome(rec.mat, r, rec, att, sc, false),
    ensures hit_outcome_ok(objs, r, rec, depth, black()),
{
    reveal_with_fuel(hit_outcome_ok, 1);
    assert(exists|a: Color, s2: Ray| #[trigger] scatter_outcome(rec.mat, r, rec, a, s2, false));
}

/// The empty sample sum is black.
#[verifier::spinoff_prover]
proof fn lemma_sample_sum_zero(cam: Camera, objs: Seq<Hittable>, i: int, j: int, acc: Color)
    requires acc == black(),
    ensures sample_sum_ok(cam, objs, i, j, 0, acc),
{
    reveal_with_fuel(sample_sum_ok, 1);
}

/// One more admitted sample extends the sample sum.
#[verifier::spinoff_prover]
proof fn lemma_sample_sum_step(
    cam: Camera,
    objs: Seq<Hittable>,
    i: int,
    j: int,
    n: int,
    prev: Color,
    c: Color,
    ray: Ray,
    acc: Color,
)
    requires
        n >= 1,
        sample_sum_ok(cam, objs, i, j, n - 1, prev),
        admitted_ray(cam, i, j, ray),
        ray_color_rel(objs, ray, cam.max_depth as int, c),
        acc == v_add(prev, c),
    ensures sample_sum_ok(cam, objs, i, j, n, acc),
{
    reveal_with_fuel(sample_sum_ok, 1);
    assert(exists|prev2: Color, c2: Color, ray2: Ray|
        sample_sum_ok(cam, objs, i, j, n - 1, prev2) && admitted_ray(cam, i, j, ray2)
            && #[trigger] ray_color_rel(objs, ray2, cam.max_depth as int, c2) && acc
            == #[trigger] v_add(prev2, c2));
}

/// Writing one pixel's four bytes keeps every already-written pixel's
/// bytes, and records the new pixel's quantized color.
#[verifier::rlimit(100)]
#[verifier::spinoff_prover]
proof fn lemma_pixel_table_step(
    cam: Camera,
    objs: Seq<Hittable>,
    snap: Seq<u8>,
    data: Seq<u8>,
    w: int,
    h: int,
    jj: int,
    j: int,
    i: int,
    acc_new: Color,
)
    requires
        cam.img_width as int == w,
        0 < w,
        0 <= i < w,
        0 <= j < h,
        jj == j + 1,
        jj * w == j * w + w,
        snap.len() == data.len(),
        data.len() == 4 * (h * w),
        data == snap.update(
            (j * w + i) * 4,
            quantize_m(v_scale(acc_new, cam.pixel_samples_scale as int).x as int) as u8,
        ).update(
            (j * w + i) * 4 + 1,
            quantize_m(v_scale(acc_new, cam.pixel_samples_scale as int).y as int) as u8,
        ).update(
            (j * w + i) * 4 + 2,
            quantize_m(v_scale(acc_new, cam.pixel_samples_scale as int).z as int) as u8,
        ).update((j * w + i) * 4 + 3, 255u8),
        sample_sum_ok(cam, objs, i, j, cam.samples_per_pixel as int, acc_new),
        forall|ii: int, j2: int|
            0 <= ii < w && jj <= j2 < h ==> #[trigger] pixel_ok(cam, objs, ii, j2, snap),
        forall|ii: int| 0 <= ii < i ==> #[trigger] pixel_ok(cam, objs, ii, j, snap),
    ensures
        forall|ii: int, j2: int|
            0 <= ii < w && jj <= j2 < h ==> #[trigger] pixel_ok(cam, objs, ii, j2, data),
        forall|ii: int| 0 <= ii < i + 1 ==> #[trigger] pixel_ok(cam, objs, ii, j, data),
{
    let q = j * w + i;
    assert(0 <= j * w + i && j * w + i < h * w) by (nonlinear_arith)
        requires 0 <= j < h, 0 <= i < w,
    ;
    assert(4 * q + 3 < data.len());
    assert(pixel_bytes_ok(cam, acc_new, i, j, data));
    assert(pixel_ok(cam, objs, i, j, data));
    assert forall|ii: int, j2: int| 0 <= ii < w && jj <= j2 < h implies #[trigger] pixel_ok(
        cam,
        objs,
        ii,
        j2,
        data,
    ) by {
        vstd::arithmetic::mul::lemma_mul_inequality(jj, j2, w);
        assert(0 <= j2 * w + ii && j2 * w + ii < h * w) by (nonlinear_arith)
            requires 0 <= j2 < h, 0 <= ii < w,
        ;
        assert(pixel_ok(cam, objs, ii, j2, snap));
        let acc = choose|acc: Color|
            #[trigger] sample_sum_ok(cam, objs, ii, j2, cam.samples_per_pixel as int, acc)
                && pixel_bytes_ok(cam, acc, ii, j2, snap);
        assert(j2 * w + ii > q);
        assert(4 * (j2 * w + ii) + 3 < data.len());
        assert(pixel_bytes_ok(cam, acc, ii, j2, data));
    }
    assert forall|ii: int| 0 <= ii < i + 1 implies #[trigger] pixel_ok(cam, objs, ii, j, data) by {
        if ii < i {
            assert(0 <= j * w + ii && j * w + ii < h * w) by (nonlinear_arith)
                requires 0 <= j < h, 0 <= ii < w,
            ;
            assert(pixel_ok(cam, objs, ii, j, snap));
            let acc = choose|acc: Color|
                #[trigger] sample_sum_ok(cam, objs, ii, j, cam.samples_per_pixel as int, acc)
                    && pixel_bytes_ok(cam, acc, ii, j, snap);
            assert(j * w + ii < q);
            assert(4 * (j * w + ii) + 3 < data.len());
            assert(pixel_bytes_ok(cam, acc, ii, j, data));
        }
    }
}

/// A hit outcome at the scene's nearest hit is an estimator outcome.
#[verifier::rlimit(100)]
#[verifier::spinoff_prover]
proof fn lemma_rel_hit(objs: Seq<Hittable>, r: Ray, depth: int, k: int, rec: HitRecord, c: Color)
    requires
        depth > 0,
        0 <= k < objs.len(),
        hittable_hit_t(objs[k], r, RAY_T_MIN as int, i64::MAX as int) == Some(rec.t as int),
        list_best_t(objs, r, RAY_T_MIN as int, i64::MAX as int) == Some(rec.t as int),
        rec == hittable_rec(objs[k], r, rec.t as int),
        hit_outcome_ok(objs, r, rec, depth, c),
    ensures ray_color_rel(objs, r, depth, c),
{
    reveal_with_fuel(ray_color_rel, 1);
}

/// A miss yields the sky gradient outcome.
#[verifier::spinoff_prover]
proof fn lemma_rel_miss(objs: Seq<Hittable>, r: Ray, depth: int, c: Color)
    requires
        depth > 0,
        list_best_t(objs, r, RAY_T_MIN as int, i64::MAX as int) is None,
        c == sky_color_m(r),
    ensures ray_color_rel(objs, r, depth, c),
{
    reveal_with_fuel(ray_color_rel, 1);
}

impl Camera {
    pub fn new_default() -> (r: Self)
        ensures
            r == (Camera {
                aspect_ratio: FX_ONE,
                img_width: 100usize,
                img_height: 100usize,
                samples_per_pixel: 10u32,
                max_depth: 10u32,
                vfov: 94371840i64,
                lookfrom: Vec3 { x: 0i64, y: 0i64, z: 0i64 },
                lookat: Vec3 { x: 0i64, y: 0i64, z: -1048576i64 },
                vup: Vec3 { x: 0i64, y: FX_ONE, z: 0i64 },
                defocus_angle: 0i64,
                focus_dist: 10485760i64,
                pixel_samples_scale: FX_ONE,
                center: Vec3 { x: 0i64, y: 0i64, z: 0i64 },
                pixel00_loc: Vec3 { x: 0i64, y: 0i64, z: 0i64 },
                pixel_delta_u: Vec3 { x: 0i64, y: 0i64, z: 0i64 },
                pixel_delta_v: Vec3 { x: 0i64, y: 0i64, z: 0i64 },
                u: Vec3 { x: 0i64, y: 0i64, z: 0i64 },
                v: Vec3 { x: 0i64, y: 0i64, z: 0i64 },
                w: Vec3 { x: 0i64, y: 0i64, z: 0i64 },
                defocus_disk_u: Vec3 { x: 0i64, y: 0i64, z: 0i64 },
                defocus_disk_v: Vec3 { x: 0i64, y: 0i64, z: 0i64 },
            }),
    {
        Camera {
            aspect_ratio: FX_ONE,
            img_width: 100,
            img_height: 100,
            samples_per_pixel: 10,
            max_depth: 10,
            vfov: 90 * FX_ONE,
            lookfrom: Vec3 { x: 0, y: 0, z: 0 },
            lookat: Vec3 { x: 0, y: 0, z: -FX_ONE },
            vup: Vec3 { x: 0, y: FX_ONE, z: 0 },
            defocus_angle: 0,
            focus_dist: 10 * FX_ONE,
            pixel_samples_scale: FX_ONE,
            center: Vec3 { x: 0, y: 0, z: 0 },
            pixel00_loc: Vec3 { x: 0, y: 0, z: 0 },
            pixel_delta_u: Vec3 { x: 0, y: 0, z: 0 },
            pixel_delta_v: Vec3 { x: 0, y: 0, z: 0 },
            u: Vec3 { x: 0, y: 0, z: 0 },
            v: Vec3 { x: 0, y: 0, z: 0 },
            w: Vec3 { x: 0, y: 0, z: 0 },
            defocus_disk_u: Vec3 { x: 0, y: 0, z: 0 },
            defocus_disk_v: Vec3 { x: 0, y: 0, z: 0 },
        }
    }

    pub fn set_basic_params(&mut self, params: CameraParams)
        ensures
            *final(self) == (Camera {
                aspect_ratio: params.aspect_ratio,
                img_width: params.img_width,
                samples_per_pixel: params.samples_per_pixel,
                max_depth: params.max_depth,
                vfov: params.vfov,
                lookfrom: params.lookfrom,
                lookat: params.lookat,
                vup: params.vup,
                defocus_angle: params.defocus_angle,
                focus_dist: params.focus_dist,
                ..*old(self)
            }),
    {
        self.aspect_ratio = params.aspect_ratio;
        self.img_width = params.img_width;
        self.samples_per_pixel = params.samples_per_pixel;
        self.max_depth = params.max_depth;
        self.vfov = params.vfov;
        self.lookfrom = params.lookfrom;
        self.lookat = params.lookat;
        self.vup = params.vup;
        self.defocus_angle = params.defocus_angle;
        self.focus_dist = params.focus_dist;
    }

    /// Whether `initialize` accepts the current extrinsics: positive aspect
    /// ratio, dimensions within range, at least one sample, a proper view
    /// direction and an up vector not parallel to it.
    pub fn can_initialize(&self) -> (r: bool)
        ensures r == can_init(*self),
    {
        if !(1 <= self.img_width && self.img_width <= MAX_DIM) {
            return false;
        }
        if !(self.aspect_ratio > 0) {
            return false;
        }
        if !(self.samples_per_pixel >= 1) {
            return false;
        }
        let wf: i64 = (self.img_width as i64) * FX_ONE;
        let v: i64 = fx_div(wf, self.aspect_ratio);
        proof {
            lemma_fx_div_nonneg(wf as int, self.aspect_ratio as int);
        }
        let hr: i128 = (v as i128 + FX_HALF as i128) / (FX_ONE as i128);
        let h: i128 = if hr < 1 {
            1
        } else {
            hr
        };
        if !(h <= MAX_DIM as i128) {
            return false;
        }
        if self.lookfrom.sub(&self.lookat).length() == 0 {
            return false;
        }
        let wb = self.lookfrom.sub(&self.lookat).unit_vector();
        if self.vup.cross(&wb).length() == 0 {
            return false;
        }
        true
    }

    /// Derive the viewing frustum, orthonormal basis, pixel grid and defocus
    /// disk from the extrinsic parameters.
    pub fn initialize(&mut self)
        requires can_init(*old(self)),
        ensures *final(self) == cam_init_model(*old(self)),
    {
        let wf: i64 = (self.img_width as i64) * FX_ONE;
        let v: i64 = fx_div(wf, self.aspect_ratio);
        proof {
            lemma_fx_div_nonneg(wf as int, self.aspect_ratio as int);
            vstd::arithmetic::div_mod::lemma_div_is_ordered(
                v as int + FX_HALF as int,
                i64::MAX as int + FX_HALF as int,
                FX_ONE as int,
            );
            assert((0x7FFF_FFFF_FFFF_FFFFint + 524288int) / 1048576int < 0x7FFF_FFFF_FFFF_FFFFint)
                by (nonlinear_arith);
            vstd::arithmetic::div_mod::lemma_div_pos_is_pos(v as int + FX_HALF as int, FX_ONE as int);
        }
        let hr: i128 = (v as i128 + FX_HALF as i128) / (FX_ONE as i128);
        let h_i64: i64 = if hr < 1 {
            1
        } else {
            hr as i64
        };
        self.img_height = h_i64 as usize;

        let spp: i64 = self.samples_per_pixel as i64;
        proof {
            assert(spp * FX_ONE as int <= 0xFFFF_FFFFint * 1048576int) by (nonlinear_arith)
                requires 0 <= spp <= 0xFFFF_FFFFint,
            ;
        }
        let sppf: i64 = spp * FX_ONE;
        self.pixel_samples_scale = fx_div(FX_ONE, sppf);

        self.center = self.lookfrom;
        let theta: i64 = fx_mul(self.vfov, FX_PI_OVER_180);
        let htan: i64 = fx_tan(fx_div(theta, FX_TWO));
        let viewport_height: i64 = fx_mul(fx_mul(FX_TWO, htan), self.focus_dist);
        let hf: i64 = h_i64 * FX_ONE;
        let viewport_width: i64 = fx_mul(viewport_height, fx_div(wf, hf));

        self.w = self.lookfrom.sub(&self.lookat).unit_vector();
        self.u = self.vup.cross(&self.w).unit_vector();
        self.v = self.w.cross(&self.u);

        let viewport_u = self.u.scale(viewport_width);
        let viewport_v = self.v.neg().scale(viewport_height);

        self.pixel_delta_u = viewport_u.div(wf);
        self.pixel_delta_v = viewport_v.div(hf);

        let viewport_upper_left = self
            .center
            .sub(&self.w.scale(self.focus_dist))
            .sub(&viewport_u.div(FX_TWO))
            .sub(&viewport_v.div(FX_TWO));
        self.pixel00_loc = viewport_upper_left.add(
            &self.pixel_delta_u.add(&self.pixel_delta_v).scale(FX_HALF),
        );

        let defocus_radius: i64 = fx_mul(
            self.focus_dist,
            fx_tan(fx_mul(fx_div(self.defocus_angle, FX_TWO), FX_PI_OVER_180)),
        );
        self.defocus_disk_u = self.u.scale(defocus_radius);
        self.defocus_disk_v = self.v.scale(defocus_radius);
    }

    /// A jitter offset in `[-1/2, 1/2)` along both pixel axes.
    pub fn sample_square(&self) -> (r: Vec3)
        ensures
            valid_offset(r.x as int),
            valid_offset(r.y as int),
            r.z == 0,
    {
        Vec3::new(
            fx_sub(random_scalar(), FX_HALF),
            fx_sub(random_scalar(), FX_HALF),
            0,
        )
    }

    /// Rejection sampling of a point in the closed unit disk; after
    /// `crate::vec3::SAMPLE_ATTEMPTS` rejections it falls back to the origin.
    fn random_in_unit_disk(&self) -> (r: Vec3)
        ensures in_unit_disk(r),
    {
        let mut tries: u32 = 0;
        while tries < crate::vec3::SAMPLE_ATTEMPTS
            invariant true,
            decreases crate::vec3::SAMPLE_ATTEMPTS - tries,
        {
            let p = Vec3::new(
                fx_sub(fx_mul(random_scalar(), FX_TWO), FX_ONE),
                fx_sub(fx_mul(random_scalar(), FX_TWO), FX_ONE),
                0,
            );
            if p.length_squared() <= FX_ONE {
                return p;
            }
            tries = tries + 1;
        }
        proof {
            crate::fixed::lemma_fx_mul_zero(0);
        }
        Vec3::new(0, 0, 0)
    }

    /// A point in the disk of the given radius.
    pub fn sample_disk(&self, radius: i64) -> (r: Vec3)
        ensures
            exists|p: Vec3| #[trigger] in_unit_disk(p) && r == v_scale(p, radius as int),
    {
        let p = self.random_in_unit_disk();
        let scaled = p.scale(radius);
        proof {
            assert(in_unit_disk(p) && scaled == v_scale(p, radius as int));
        }
        scaled
    }

    /// A sample on the camera's defocus disk.
    pub fn defocus_disk_sample(&self) -> (r: Point3)
        ensures
            exists|p: Vec3| #[trigger] in_unit_disk(p) && r == defocus_sample_m(*self, p),
    {
        let p = self.random_in_unit_disk();
        let s = self
            .center
            .add(&self.defocus_disk_u.scale(p.x()))
            .add(&self.defocus_disk_v.scale(p.y()));
        proof {
            assert(in_unit_disk(p) && s == defocus_sample_m(*self, p));
        }
        s
    }

    /// The jittered (and, with defocus, thin-lens) ray for pixel `(i, j)`.
    /// With the defocus disk disabled the origin is exactly the camera
    /// center.
    pub fn get_ray(&self, i: usize, j: usize) -> (r: Ray)
        requires
            i < 0x4000,
            j < 0x4000,
        ensures
            admitted_ray(*self, i as int, j as int, r),
            self.defocus_angle <= 0 ==> r.origin == self.center,
    {
        let offset = self.sample_square();
        let pixel_sample = self
            .pixel00_loc
            .add(&self.pixel_delta_u.scale(fx_add((i as i64) * FX_ONE, offset.x())))
            .add(&self.pixel_delta_v.scale(fx_add((j as i64) * FX_ONE, offset.y())));

        if self.defocus_angle <= 0 {
            let ray_origin = self.center;
            let ray_direction = pixel_sample.sub(&ray_origin);
            let r = Ray::new(ray_origin, ray_direction);
            proof {
                crate::fixed::lemma_fx_mul_zero(0);
                let dp = Vec3 { x: 0i64, y: 0i64, z: 0i64 };
                assert(valid_offset(offset.x as int) && valid_offset(offset.y as int)
                    && in_unit_disk(dp) && r == ray_from_sample(
                    *self,
                    i as int,
                    j as int,
                    offset.x as int,
                    offset.y as int,
                    dp,
                ));
            }
            r
        } else {
            let ray_origin = self.defocus_disk_sample();
            let ray_direction = pixel_sample.sub(&ray_origin);
            let r = Ray::new(ray_origin, ray_direction);
            proof {
                let dp = choose|p: Vec3| #[trigger] in_unit_disk(p) && ray_origin
                    == defocus_sample_m(*self, p);
                assert(valid_offset(offset.x as int) && valid_offset(offset.y as int)
                    && in_unit_disk(dp) && r == ray_from_sample(
                    *self,
                    i as int,
                    j as int,
                    offset.x as int,
                    offset.y as int,
                    dp,
                ));
            }
            r
        }
    }

    /// The recursive color estimator. At depth zero it is black; on a miss
    /// it is the exact sky gradient; on a hit it either terminates black on
    /// absorption or recurses on the scattered ray, attenuated. The full
    /// outcome relation is `ray_color_rel`.
    #[verifier::rlimit(100)]
    #[verifier::spinoff_prover]
    pub fn ray_color(&self, r: &Ray, depth: u32, world: &HittableList) -> (c: Color)
        requires list_wf(*world),
        ensures
            ray_color_rel(world.objects@, *r, depth as int, c),
            depth == 0 ==> c == black(),
            depth > 0 && list_best_t(
                world.objects@,
                *r,
                RAY_T_MIN as int,
                i64::MAX as int,
            ).is_none() ==> c == sky_color_m(*r),
        decreases depth,
    {
        let ghost objs = world.objects@;
        if depth == 0 {
            proof {
                reveal_with_fuel(ray_color_rel, 1);
            }
            return Vec3::new(0, 0, 0);
        }

        let mut rec = HitRecord::default();
        if world.hit(r, &Interval::new(RAY_T_MIN, i64::MAX), &mut rec) {
            let ghost k = choose|k: int|
                0 <= k < objs.len() && #[trigger] hittable_hit_t(
                    objs[k],
                    *r,
                    RAY_T_MIN as int,
                    i64::MAX as int,
                ) == Some(rec.t as int) && rec == hittable_rec(objs[k], *r, rec.t as int);
            proof {
                assert(hittable_wf(objs[k]));
                crate::hittable_list::lemma_hittable_rec_mat(objs[k], *r, rec.t as int);
                assert(mat_wf(rec.mat));
                assert(list_best_t(objs, *r, RAY_T_MIN as int, i64::MAX as int) == Some(
                    rec.t as int,
                ));
            }
            let mut scattered = Ray::default();
            let mut attenuation = Color::default();

            if rec.mat.scatter(r, &rec, &mut attenuation, &mut scattered) {
                let c2 = self.ray_color(&scattered, depth - 1, world);
                let out = attenuation.mul(&c2);
                proof {
                    reveal(scatter_outcome);
                    assert(scatter_outcome(rec.mat, *r, rec, attenuation, scattered, true));
                    lemma_hit_outcome_scatter(
                        objs,
                        *r,
                        depth as int,
                        rec,
                        attenuation,
                        scattered,
                        c2,
                        out,
                    );
                    lemma_rel_hit(objs, *r, depth as int, k, rec, out);
                }
                return out;
            }

            proof {
                reveal(scatter_outcome);
                assert(scatter_outcome(rec.mat, *r, rec, attenuation, scattered, false));
                lemma_hit_outcome_absorb(objs, *r, depth as int, rec, attenuation, scattered);
                lemma_rel_hit(objs, *r, depth as int, k, rec, black());
            }
            return Vec3::new(0, 0, 0);
        }

        let len: i64 = r.direction().length();
        let unit_direction = if len == 0 {
            r.direction()
        } else {
            r.direction().unit_vector()
        };
        let a: i64 = fx_mul(FX_HALF, fx_add(unit_direction.y(), FX_ONE));
        let white_c = Vec3::new(FX_ONE, FX_ONE, FX_ONE);
        let blue_c = Vec3::new(SKY_R, SKY_G, SKY_B);
        let sky = white_c.scale(fx_sub(FX_ONE, a)).add(&blue_c.scale(a));
        proof {
            reveal(sky_color_m);
            assert(sky == sky_color_m(*r));
            lemma_rel_miss(objs, *r, depth as int, sky);
        }
        sky
    }

    /// Render the scene into a row-major RGBA byte buffer: for each pixel,
    /// average `samples_per_pixel` estimates, then gamma correct, clamp and
    /// quantize.
    #[verifier::rlimit(100)]
    #[verifier::spinoff_prover]
    pub fn render(&mut self, world: &HittableList) -> (data: Vec<u8>)
        requires
            can_init(*old(self)),
            list_wf(*world),
        ensures
            *final(self) == cam_init_model(*old(self)),
            data@.len() == final(self).img_width * final(self).img_height * 4,
            forall|p: int|
                0 <= p < final(self).img_width * final(self).img_height ==> #[trigger] data@[4 * p
                    + 3] == 255,
            forall|i: int, j: int|
                0 <= i < final(self).img_width && 0 <= j < final(self).img_height
                    ==> #[trigger] pixel_ok(*final(self), world.objects@, i, j, data@),
    {
        self.initialize();
        let w: usize = self.img_width;
        let h: usize = self.img_height;
        proof {
            assert(w * h * 4 < 0x4000_0000) by (nonlinear_arith)
                requires w <= 16383, h <= 16383,
            ;
        }
        let total: usize = w * h * 4;
        proof {
            assert(4 * (h * w) == total && h * w == w * h) by (nonlinear_arith)
                requires total == w * h * 4,
            ;
        }
        let mut pixel_data: Vec<u8> = Vec::new();
        while pixel_data.len() < total
            invariant pixel_data@.len() <= total,
            decreases total - pixel_data@.len(),
        {
            pixel_data.push(0);
        }

        let mut jj: usize = h;
        while jj > 0
            invariant
                jj <= h,
                pixel_data@.len() == total,
                total == w * h * 4,
                4 * (h * w) == total,
                w == self.img_width,
                h == self.img_height,
                w < 0x4000,
                h < 0x4000,
                *self == cam_init_model(*old(self)),
                list_wf(*world),
                forall|p: int|
                    jj * w <= p < h * w ==> #[trigger] pixel_data@[4 * p + 3] == 255,
                forall|ii: int, j2: int|
                    0 <= ii < w && jj <= j2 < h ==> #[trigger] pixel_ok(
                        *self,
                        world.objects@,
                        ii,
                        j2,
                        pixel_data@,
                    ),
            decreases jj,
        {
            let j: usize = jj - 1;
            proof {
                assert(jj * w == j * w + w) by (nonlinear_arith)
                    requires jj == j + 1,
                ;
            }
            let mut i: usize = 0;
            while i < w
                invariant
                    i <= w,
                    j < h,
                    jj == j + 1,
                    jj * w == j * w + w,
                    pixel_data@.len() == total,
                    total == w * h * 4,
                    4 * (h * w) == total,
                    w == self.img_width,
                    h == self.img_height,
                    w < 0x4000,
                    h < 0x4000,
                    *self == cam_init_model(*old(self)),
                    list_wf(*world),
                    forall|p: int|
                        jj * w <= p < h * w ==> #[trigger] pixel_data@[4 * p + 3] == 255,
                    forall|p: int|
                        j * w <= p < j * w + i ==> #[trigger] pixel_data@[4 * p + 3] == 255,
                    forall|ii: int, j2: int|
                        0 <= ii < w && jj <= j2 < h ==> #[trigger] pixel_ok(
                            *self,
                            world.objects@,
                            ii,
                            j2,
                            pixel_data@,
                        ),
                    forall|ii: int|
                        0 <= ii < i ==> #[trigger] pixel_ok(
                            *self,
                            world.objects@,
                            ii,
                            j as int,
                            pixel_data@,
                        ),
                decreases w - i,
            {
                let mut pixel_color = Vec3::new(0, 0, 0);
                proof {
                    lemma_sample_sum_zero(
                        *self,
                        world.objects@,
                        i as int,
                        j as int,
                        pixel_color,
                    );
                }
                let mut s: u32 = 0;
                while s < self.samples_per_pixel
                    invariant
                        i < w,
                        j < h,
                        w == self.img_width,
                        h == self.img_height,
                        w < 0x4000,
                        h < 0x4000,
                        *self == cam_init_model(*old(self)),
                        list_wf(*world),
                        s <= self.samples_per_pixel,
                        sample_sum_ok(*self, world.objects@, i as int, j as int, s as int, pixel_color),
                    decreases self.samples_per_pixel - s,
                {
                    let r = self.get_ray(i, j);
                    let sample = self.ray_color(&r, self.max_depth, world);
                    let next = pixel_color.add(&sample);
                    proof {
                        lemma_sample_sum_step(
                            *self,
                            world.objects@,
                            i as int,
                            j as int,
                            s as int + 1,
                            pixel_color,
                            sample,
                            r,
                            next,
                        );
                    }
                    pixel_color = next;
                    s = s + 1;
                }
                proof {
                    assert(j * w + i < h * w && (j * w + i) * 4 + 3 < total) by (nonlinear_arith)
                        requires j < h, i < w, total == w * h * 4, 0 <= j, 0 <= i, 0 <= w,
                    ;
                }
                let scaled = pixel_color.scale(self.pixel_samples_scale);
                let ghost snap = pixel_data@;
                write_color(scaled, &mut pixel_data, w, j, i);
                proof {
                    let cam = *self;
                    let objs = world.objects@;
                    let q = j * w + i;
                    assert forall|p: int| jj * w <= p < h * w implies #[trigger] pixel_data@[4 * p
                        + 3] == 255 by {
                        assert(q < jj * w);
                        assert(pixel_data@[4 * p + 3] == snap[4 * p + 3]);
                    }
                    assert forall|p: int| j * w <= p < j * w + i + 1 implies #[trigger] pixel_data@[
                        4 * p + 3] == 255 by {
                        if p < q {
                            assert(pixel_data@[4 * p + 3] == snap[4 * p + 3]);
                        } else {
                            assert(pixel_data@[4 * p + 3] == 255);
                        }
                    }
                    lemma_pixel_table_step(
                        cam,
                        objs,
                        snap,
                        pixel_data@,
                        w as int,
                        h as int,
                        jj as int,
                        j as int,
                        i as int,
                        pixel_color,
                    );
                }
                i = i + 1;
            }
            proof {
                assert(j * w + w == jj * w) by (nonlinear_arith)
                    requires jj == j + 1,
                ;
                assert(forall|p: int|
                    j * w <= p < h * w ==> #[trigger] pixel_data@[4 * p + 3] == 255);
                assert forall|ii: int, j2: int| 0 <= ii < w && j <= j2 < h implies #[trigger]
                    pixel_ok(*self, world.objects@, ii, j2, pixel_data@) by {
                }
            }
            jj = jj - 1;
        }
        proof {
            assert(h * w == w * h) by (nonlinear_arith);
        }
        pixel_data
    }
}

/// Division of a non-negative fixed-point value by a positive one is
/// non-negative.
proof fn lemma_fx_div_nonneg(a: int, b: int)
    requires
        a >= 0,
        b > 0,
    ensures 0 <= fx_div_m(a, b),
{
    assert(crate::fixed::abs_i(a) * (FX_ONE as int) >= 0) by (nonlinear_arith)
        requires a >= 0,
    ;
    vstd::arithmetic::div_mod::lemma_div_pos_is_pos(
        crate::fixed::abs_i(a) * (FX_ONE as int),
        crate::fixed::abs_i(b),
    );
}

} // verus!
