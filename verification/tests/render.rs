use m1_raytracer::camera::{Camera, CameraParams};
use m1_raytracer::color::write_color;
use m1_raytracer::hittable::HitRecord;
use m1_raytracer::hittable_list::{Hittable, HittableList};
use m1_raytracer::material::{Dielectric, Lambertian, Material, Metal};
use m1_raytracer::ray::Ray;
use m1_raytracer::sphere::Sphere;
use m1_raytracer::vec3::Vec3;

const F: i64 = 1048576;

fn front_hit_record() -> HitRecord {
    let mut rec = HitRecord::default();
    rec.p = Vec3::new(0, 0, F);
    rec.normal = Vec3::new(0, 0, F);
    rec.front_face = true;
    rec.t = 4 * F;
    rec
}

fn world_with_sphere() -> HittableList {
    let mut w = HittableList::new();
    w.add(Hittable::Sphere(Sphere::new(
        Vec3::new(0, 0, 0),
        F,
        Material::Lambertian(Lambertian::new(Vec3::new(F / 2, F / 2, F / 2))),
    )));
    w
}

#[test]
fn lambertian_attenuation_is_albedo() {
    let albedo = Vec3::new(838860, 419430, 209715);
    let m = Lambertian::new(albedo);
    let rec = front_hit_record();
    let r_in = Ray::new(Vec3::new(0, 0, 5 * F), Vec3::new(0, 0, -F));
    for _ in 0..20 {
        let mut att = Vec3::new(0, 0, 0);
        let mut scattered = Ray::default();
        assert!(m.scatter(&r_in, &rec, &mut att, &mut scattered));
        assert_eq!((att.x(), att.y(), att.z()), (838860, 419430, 209715));
        assert_eq!(
            (scattered.origin().x(), scattered.origin().y(), scattered.origin().z()),
            (0, 0, F)
        );
    }
}

#[test]
fn metal_attenuation_is_albedo() {
    let albedo = Vec3::new(941621, 859832, 776530);
    let m = Metal::new(albedo, F / 4);
    let rec = front_hit_record();
    let r_in = Ray::new(Vec3::new(0, 0, 5 * F), Vec3::new(0, 0, -F));
    for _ in 0..20 {
        let mut att = Vec3::new(0, 0, 0);
        let mut scattered = Ray::default();
        let _ = m.scatter(&r_in, &rec, &mut att, &mut scattered);
        assert_eq!((att.x(), att.y(), att.z()), (941621, 859832, 776530));
    }
}

#[test]
fn dielectric_attenuation_is_white() {
    let m = Dielectric::new(3 * F / 2);
    let rec = front_hit_record();
    let r_in = Ray::new(Vec3::new(0, 0, 5 * F), Vec3::new(0, 0, -F));
    for _ in 0..20 {
        let mut att = Vec3::new(0, 0, 0);
        let mut scattered = Ray::default();
        assert!(m.scatter(&r_in, &rec, &mut att, &mut scattered));
        assert_eq!((att.x(), att.y(), att.z()), (F, F, F));
    }
}

#[test]
fn default_material_scatters_grey() {
    // The default material behaves as a Lambertian with a fixed 50%-grey
    // albedo: it always scatters, from the hit point.
    let m = m1_raytracer::material::DefaultMaterial;
    let rec = front_hit_record();
    let r_in = Ray::new(Vec3::new(0, 0, 5 * F), Vec3::new(0, 0, -F));
    for _ in 0..20 {
        let mut att = Vec3::new(0, 0, 0);
        let mut scattered = Ray::default();
        assert!(m.scatter(&r_in, &rec, &mut att, &mut scattered));
        assert_eq!((att.x(), att.y(), att.z()), (F / 2, F / 2, F / 2));
        assert_eq!(
            (scattered.origin().x(), scattered.origin().y(), scattered.origin().z()),
            (0, 0, F)
        );
        // the scattered direction is the normal plus a unit sample, so it
        // is never longer than two
        assert!(scattered.direction().length() <= 2 * F + 4096);
    }
}

#[test]
fn metal_zero_fuzz_is_specular() {
    // v = (1,0,-1), n = (0,0,1): reflection is v - 2(v.n)n = (1,0,1), so
    // the outgoing angle with the normal equals the incoming one.
    let m = Metal::new(Vec3::new(F, F, F), 0);
    let rec = front_hit_record();
    let r_in = Ray::new(Vec3::new(-F, 0, 2 * F), Vec3::new(F, 0, -F));
    let mut att = Vec3::new(0, 0, 0);
    let mut scattered = Ray::default();
    let ok = m.scatter(&r_in, &rec, &mut att, &mut scattered);
    assert!(ok);
    let d = scattered.direction();
    assert_eq!((d.x(), d.y(), d.z()), (F, 0, F));
    // angle equality through the dot product: |r . n| == |v . n|
    let n = Vec3::new(0, 0, F);
    assert_eq!(d.dot(&n), -(r_in.direction().dot(&n)));
}

#[test]
fn metal_fuzz_clamped_at_construction() {
    let m = Metal::new(Vec3::new(F, F, F), 3 * F);
    assert_eq!(m.fuzz, F);
    let m2 = Metal::new(Vec3::new(F, F, F), -5);
    assert_eq!(m2.fuzz, 0);
    let m3 = Metal::new(Vec3::new(F, F, F), F / 2);
    assert_eq!(m3.fuzz, F / 2);
}

#[test]
fn ray_color_depth_zero_is_black() {
    let cam = Camera::new_default();
    let world = world_with_sphere();
    let rays = [
        Ray::new(Vec3::new(0, 0, 5 * F), Vec3::new(0, 0, -F)),
        Ray::new(Vec3::new(F, 2 * F, 0), Vec3::new(0, F, 0)),
    ];
    for r in rays.iter() {
        let c = cam.ray_color(r, 0, &world);
        assert_eq!((c.x(), c.y(), c.z()), (0, 0, 0));
    }
}

#[test]
fn empty_scene_sky_gradient() {
    let cam = Camera::new_default();
    let world = HittableList::new();
    // straight up: all sky blue
    let up = cam.ray_color(&Ray::new(Vec3::new(0, 0, 0), Vec3::new(0, F, 0)), 5, &world);
    assert_eq!((up.x(), up.y(), up.z()), (524288, 734003, F));
    // straight down: all white
    let down = cam.ray_color(&Ray::new(Vec3::new(0, 0, 0), Vec3::new(0, -F, 0)), 5, &world);
    assert_eq!((down.x(), down.y(), down.z()), (F, F, F));
    // horizontal: the even mix of white and sky blue
    let side = cam.ray_color(&Ray::new(Vec3::new(0, 0, 0), Vec3::new(F, 0, 0)), 5, &world);
    assert_eq!((side.x(), side.y(), side.z()), (786432, 891289, F));
    // deterministic: repeated evaluation along the same ray is identical
    let again = cam.ray_color(&Ray::new(Vec3::new(0, 0, 0), Vec3::new(F, 0, 0)), 5, &world);
    assert_eq!((side.x(), side.y(), side.z()), (again.x(), again.y(), again.z()));
}

#[test]
fn miss_color_is_never_black() {
    // A miss of the whole scene returns the sky gradient, never black,
    // at positive depth.
    let cam = Camera::new_default();
    let world = world_with_sphere();
    let miss = cam.ray_color(&Ray::new(Vec3::new(0, 0, 5 * F), Vec3::new(0, 0, F)), 3, &world);
    assert!(miss.x() > 0 || miss.y() > 0 || miss.z() > 0);
}

#[test]
fn gamma_quantization_extremes() {
    // linear (1,1,1) -> (255,255,255,255); linear (0,0,0) -> (0,0,0,255).
    let mut buf = vec![0u8; 8];
    write_color(Vec3::new(F, F, F), &mut buf, 2, 0, 0);
    assert_eq!(&buf[0..4], &[255, 255, 255, 255]);
    write_color(Vec3::new(0, 0, 0), &mut buf, 2, 0, 1);
    assert_eq!(&buf[4..8], &[0, 0, 0, 255]);
}

#[test]
fn gamma_quantization_midtone() {
    // linear 0.25 gamma-corrects to 0.5, which quantizes to byte 128.
    let mut buf = vec![0u8; 4];
    write_color(Vec3::new(F / 4, F / 4, F / 4), &mut buf, 1, 0, 0);
    assert_eq!(&buf[0..4], &[128, 128, 128, 255]);
}

#[test]
fn quantization_never_reaches_256() {
    // every channel byte stays at most 255 even for values above one
    let mut buf = vec![0u8; 4];
    write_color(Vec3::new(100 * F, i64::MAX, F - 1), &mut buf, 1, 0, 0);
    assert_eq!(buf[0], 255);
    assert_eq!(buf[1], 255);
    assert_eq!(buf[2], 255);
    assert_eq!(buf[3], 255);
}

#[test]
fn write_color_out_of_range_is_ignored() {
    let mut buf = vec![7u8; 8];
    write_color(Vec3::new(F, F, F), &mut buf, 2, 5, 1);
    assert_eq!(buf, vec![7u8; 8]);
}

fn test_params() -> CameraParams {
    CameraParams {
        aspect_ratio: F,
        img_width: 4,
        samples_per_pixel: 2,
        max_depth: 3,
        vfov: 90 * F,
        lookfrom: Vec3::new(0, 0, 5 * F),
        lookat: Vec3::new(0, 0, 0),
        vup: Vec3::new(0, F, 0),
        defocus_angle: 0,
        focus_dist: 10 * F,
    }
}

#[test]
fn defocus_disabled_origin_is_center() {
    let mut cam = Camera::new_default();
    cam.set_basic_params(test_params());
    assert!(cam.can_initialize());
    cam.initialize();
    for i in 0..4usize {
        for j in 0..4usize {
            let r = cam.get_ray(i, j);
            let o = r.origin();
            assert_eq!((o.x(), o.y(), o.z()), (cam.center.x(), cam.center.y(), cam.center.z()));
        }
    }
}

#[test]
fn defocus_enabled_origin_on_disk() {
    let mut cam = Camera::new_default();
    let mut p = test_params();
    p.defocus_angle = 6 * F;
    cam.set_basic_params(p);
    assert!(cam.can_initialize());
    cam.initialize();
    // the origin stays within the defocus disk around the center
    let radius = cam.defocus_disk_u.length();
    for _ in 0..10 {
        let r = cam.get_ray(1, 1);
        let off = r.origin().sub(&cam.center);
        assert!(off.length() <= radius + 4096);
    }
}

#[test]
fn camera_initialize_derives_height_and_basis() {
    let mut cam = Camera::new_default();
    cam.set_basic_params(test_params());
    cam.initialize();
    assert_eq!(cam.img_height, 4);
    // w points from lookat toward lookfrom
    assert_eq!((cam.w.x(), cam.w.y(), cam.w.z()), (0, 0, F));
    assert_eq!((cam.u.x(), cam.u.y(), cam.u.z()), (F, 0, 0));
    assert_eq!((cam.v.x(), cam.v.y(), cam.v.z()), (0, F, 0));
    assert_eq!(cam.pixel_samples_scale, F / 2);
}

#[test]
fn camera_rejects_degenerate_extrinsics() {
    let mut cam = Camera::new_default();
    let mut p = test_params();
    p.lookat = p.lookfrom;
    cam.set_basic_params(p);
    assert!(!cam.can_initialize());

    let mut cam2 = Camera::new_default();
    let mut p2 = test_params();
    p2.vup = Vec3::new(0, 0, F);
    cam2.set_basic_params(p2);
    assert!(!cam2.can_initialize());

    let mut cam3 = Camera::new_default();
    let mut p3 = test_params();
    p3.img_width = 0;
    cam3.set_basic_params(p3);
    assert!(!cam3.can_initialize());
}

#[test]
fn camera_rejects_oversized_height() {
    // A tiny aspect ratio would blow the image height past the supported
    // maximum dimension.
    let mut cam = Camera::new_default();
    let mut p = test_params();
    p.img_width = 16383;
    p.aspect_ratio = 1024; // about 0.001
    cam.set_basic_params(p);
    assert!(!cam.can_initialize());
}

#[test]
fn tangent_of_half_right_angle_is_one() {
    // 45 degrees in fixed-point radians, via the same conversion factor the
    // camera uses.
    let x = 45 * m1_raytracer::camera::FX_PI_OVER_180;
    let t = m1_raytracer::trig::fx_tan(x);
    assert!((t - F).abs() <= 2048, "tan(45 deg) = {}", t);
    let s = m1_raytracer::trig::fx_sin(x);
    let c = m1_raytracer::trig::fx_cos(x);
    assert!((s - 741455).abs() <= 1024, "sin(45 deg) = {}", s);
    assert!((c - 741455).abs() <= 1024, "cos(45 deg) = {}", c);
}

#[test]
fn render_produces_rgba_buffer() {
    let mut cam = Camera::new_default();
    cam.set_basic_params(test_params());
    let world = world_with_sphere();
    let data = cam.render(&world);
    assert_eq!(data.len(), 4 * 4 * 4);
    let mut k = 3;
    while k < data.len() {
        assert_eq!(data[k], 255);
        k += 4;
    }
}

#[test]
fn render_empty_scene_matches_sky() {
    // With one sample per pixel and no scene, every pixel quantizes the
    // sky gradient of its jittered ray; channels lie between the white and
    // sky-blue extremes after gamma correction.
    let mut cam = Camera::new_default();
    let mut p = test_params();
    p.samples_per_pixel = 1;
    cam.set_basic_params(p);
    let world = HittableList::new();
    let data = cam.render(&world);
    assert_eq!(data.len(), 4 * 4 * 4);
    for px in 0..16usize {
        let r = data[px * 4] as u32;
        let g = data[px * 4 + 1] as u32;
        let b = data[px * 4 + 2] as u32;
        // blue is the strongest channel of every sky color
        assert!(b >= g && g >= r, "sky ordering violated: {} {} {}", r, g, b);
        assert!(b >= 200, "sky blue channel too weak: {}", b);
        assert_eq!(data[px * 4 + 3], 255);
    }
}
