use m1_raytracer::fixed::{fx_add, fx_div, fx_mul, fx_neg, fx_sqrt, fx_sub, FX_ONE};
use m1_raytracer::hittable::HitRecord;
use m1_raytracer::hittable_list::{Hittable, HittableList};
use m1_raytracer::interval::Interval;
use m1_raytracer::material::{Lambertian, Material};
use m1_raytracer::obj::load_obj_triangles;
use m1_raytracer::objloader::{parse_decimal, parse_face_token, split_tokens, OBJLoader};
use m1_raytracer::ray::Ray;
use m1_raytracer::sphere::Sphere;
use m1_raytracer::triangle::{create_cube, Triangle};
use m1_raytracer::vec3::Vec3;

const F: i64 = 1048576;

fn grey_mat() -> Material {
    Material::Lambertian(Lambertian::new(Vec3::new(F / 2, F / 2, F / 2)))
}

#[test]
fn fixed_point_arithmetic() {
    assert_eq!(fx_add(F, F), 2 * F);
    assert_eq!(fx_sub(F, 3 * F), -2 * F);
    assert_eq!(fx_mul(2 * F, 3 * F), 6 * F);
    assert_eq!(fx_mul(F / 2, F / 2), F / 4);
    assert_eq!(fx_div(6 * F, 3 * F), 2 * F);
    assert_eq!(fx_neg(5 * F), -5 * F);
    assert_eq!(fx_sqrt(4 * F), 2 * F);
    assert_eq!(fx_sqrt(0), 0);
    assert_eq!(fx_sqrt(F), F);
    // saturation instead of wrap-around
    assert_eq!(fx_add(i64::MAX, 1), i64::MAX);
    assert_eq!(fx_neg(i64::MIN), i64::MAX);
}

#[test]
fn vector_operations() {
    let a = Vec3::new(F, 2 * F, 3 * F);
    let b = Vec3::new(4 * F, 5 * F, 6 * F);
    let s = a.add(&b);
    assert_eq!((s.x(), s.y(), s.z()), (5 * F, 7 * F, 9 * F));
    let d = a.dot(&b);
    assert_eq!(d, 32 * F);
    let c = Vec3::new(F, 0, 0).cross(&Vec3::new(0, F, 0));
    assert_eq!((c.x(), c.y(), c.z()), (0, 0, F));
    assert_eq!(Vec3::new(3 * F, 4 * F, 0).length(), 5 * F);
    let n = Vec3::new(0, 0, 7 * F).normalize();
    assert_eq!((n.x(), n.y(), n.z()), (0, 0, F));
    assert!(Vec3::new(0, 0, 0).near_zero());
    assert!(!Vec3::new(F, 0, 0).near_zero());
    let neg = a.neg();
    assert_eq!((neg.x(), neg.y(), neg.z()), (-F, -2 * F, -3 * F));
    let h = a.mul(&b);
    assert_eq!((h.x(), h.y(), h.z()), (4 * F, 10 * F, 18 * F));
}

#[test]
fn interval_membership_and_clamp() {
    let iv = Interval::new(2, 10);
    assert!(iv.contains(2));
    assert!(iv.contains(10));
    assert!(!iv.contains(11));
    assert!(iv.surrounds(3));
    assert!(!iv.surrounds(2));
    assert!(!iv.surrounds(10));
    assert_eq!(iv.clamp(1), 2);
    assert_eq!(iv.clamp(11), 10);
    assert_eq!(iv.clamp(7), 7);
}

#[test]
fn unit_sphere_head_on_hit() {
    // Unit sphere at the origin, ray from (0,0,5) toward the origin:
    // hit at t = 4, point (0,0,1), outward normal (0,0,1).
    let s = Sphere::new(Vec3::new(0, 0, 0), F, grey_mat());
    let r = Ray::new(Vec3::new(0, 0, 5 * F), Vec3::new(0, 0, -F));
    let mut rec = HitRecord::default();
    let hit = s.hit(&r, &Interval::new(1049, i64::MAX), &mut rec);
    assert!(hit);
    assert_eq!(rec.t, 4 * F);
    assert_eq!((rec.p.x(), rec.p.y(), rec.p.z()), (0, 0, F));
    assert_eq!((rec.normal.x(), rec.normal.y(), rec.normal.z()), (0, 0, F));
    assert!(rec.front_face);
}

#[test]
fn sphere_hit_point_lies_on_surface() {
    // Whenever a hit is reported, |point - center| is the radius, up to
    // fixed-point rounding.
    let centers = [Vec3::new(0, 0, 0), Vec3::new(F, -2 * F, 3 * F)];
    let radii = [F, 3 * F / 2];
    let rays = [
        Ray::new(Vec3::new(0, 0, 5 * F), Vec3::new(0, 0, -F)),
        Ray::new(Vec3::new(4 * F, 0, 0), Vec3::new(-F, -F / 3, F / 4)),
    ];
    for c in centers.iter() {
        for rad in radii.iter() {
            for r in rays.iter() {
                let s = Sphere::new(*c, *rad, grey_mat());
                let mut rec = HitRecord::default();
                if s.hit(r, &Interval::new(1049, i64::MAX), &mut rec) {
                    let dist = rec.p.sub(c).length();
                    let err = (dist - rad).abs();
                    assert!(err <= 8192, "surface distance off by {}", err);
                }
            }
        }
    }
}

#[test]
fn sphere_miss_leaves_record_untouched() {
    let s = Sphere::new(Vec3::new(0, 0, 0), F, grey_mat());
    // Ray pointing away from the sphere.
    let r = Ray::new(Vec3::new(0, 0, 5 * F), Vec3::new(0, 0, F));
    let mut rec = HitRecord::default();
    rec.t = 77;
    assert!(!s.hit(&r, &Interval::new(1049, i64::MAX), &mut rec));
    assert_eq!(rec.t, 77);
}

#[test]
fn triangle_centroid_hit() {
    // A ray through the centroid, fired from outside along the outward
    // normal, is accepted.
    let t = Triangle::new(
        Vec3::new(0, 0, 0),
        Vec3::new(3 * F, 0, 0),
        Vec3::new(0, 3 * F, 0),
        grey_mat(),
    );
    assert_eq!((t.normal.x(), t.normal.y(), t.normal.z()), (0, 0, F));
    let r = Ray::new(Vec3::new(F, F, 5 * F), Vec3::new(0, 0, -F));
    let mut rec = HitRecord::default();
    let hit = t.hit(&r, &Interval::new(1049, i64::MAX), &mut rec);
    assert!(hit);
    assert!((rec.t - 5 * F).abs() <= 64);
    assert!(rec.front_face);
    assert_eq!((rec.normal.x(), rec.normal.y(), rec.normal.z()), (0, 0, F));
}

#[test]
fn triangle_miss_outside_barycentric_range() {
    let t = Triangle::new(
        Vec3::new(0, 0, 0),
        Vec3::new(3 * F, 0, 0),
        Vec3::new(0, 3 * F, 0),
        grey_mat(),
    );
    // Ray passes outside the triangle (negative-x side).
    let r = Ray::new(Vec3::new(-F, F, 5 * F), Vec3::new(0, 0, -F));
    let mut rec = HitRecord::default();
    assert!(!t.hit(&r, &Interval::new(1049, i64::MAX), &mut rec));
    // Parallel ray misses too.
    let r2 = Ray::new(Vec3::new(0, 0, 5 * F), Vec3::new(F, 0, 0));
    assert!(!t.hit(&r2, &Interval::new(1049, i64::MAX), &mut rec));
}

#[test]
fn triangle_ignores_interval_lower_bound() {
    // The triangle test checks its parameter only against a fixed epsilon
    // floor and the interval's upper end, never the lower end; the sphere
    // checks both. The asymmetry is deliberate and contractual.
    let tri = Triangle::new(
        Vec3::new(-3 * F, -3 * F, 0),
        Vec3::new(3 * F, -3 * F, 0),
        Vec3::new(0, 3 * F, 0),
        grey_mat(),
    );
    let r = Ray::new(Vec3::new(0, 0, 2 * F), Vec3::new(0, 0, -F));
    // Hit would be near t = 2; an interval starting above 2 still accepts it.
    let mut rec = HitRecord::default();
    assert!(tri.hit(&r, &Interval::new(5 * F, i64::MAX), &mut rec));
    // A sphere in the same position rejects a root below the lower bound.
    let s = Sphere::new(Vec3::new(0, 0, -F), F, grey_mat());
    let r2 = Ray::new(Vec3::new(0, 0, 2 * F), Vec3::new(0, 0, -F));
    let mut rec2 = HitRecord::default();
    assert!(!s.hit(&r2, &Interval::new(10 * F, i64::MAX), &mut rec2));
}

#[test]
fn nearest_wins_either_order() {
    // Two overlapping spheres along one ray: the closer hit is returned
    // regardless of insertion order.
    let far = Hittable::Sphere(Sphere::new(Vec3::new(0, 0, 0), F, grey_mat()));
    let near = Hittable::Sphere(Sphere::new(Vec3::new(0, 0, F), F, grey_mat()));
    let r = Ray::new(Vec3::new(0, 0, 5 * F), Vec3::new(0, 0, -F));

    let mut w1 = HittableList::new();
    w1.add(far);
    w1.add(near);
    let mut rec1 = HitRecord::default();
    assert!(w1.hit(&r, &Interval::new(1049, i64::MAX), &mut rec1));

    let mut w2 = HittableList::new();
    w2.add(near);
    w2.add(far);
    let mut rec2 = HitRecord::default();
    assert!(w2.hit(&r, &Interval::new(1049, i64::MAX), &mut rec2));

    assert_eq!(rec1.t, 3 * F);
    assert_eq!(rec2.t, 3 * F);
    assert_eq!((rec1.p.x(), rec1.p.y(), rec1.p.z()), (0, 0, 2 * F));
}

#[test]
fn empty_list_misses() {
    let w = HittableList::new();
    let r = Ray::new(Vec3::new(0, 0, 0), Vec3::new(0, 0, -F));
    let mut rec = HitRecord::default();
    rec.t = 123;
    assert!(!w.hit(&r, &Interval::new(1049, i64::MAX), &mut rec));
    assert_eq!(rec.t, 123);
}

#[test]
fn cube_has_twelve_faces() {
    let m = grey_mat();
    let cube = create_cube(m, 2 * F);
    assert_eq!(cube.len(), 12);
    for t in cube.iter() {
        assert_eq!(t.mat, m);
    }
    // First triangle spans the near face's corner.
    let t0 = &cube[0];
    assert_eq!((t0.p0.x(), t0.p0.y(), t0.p0.z()), (0, 0, 0));
    assert_eq!((t0.p1.x(), t0.p1.y(), t0.p1.z()), (2 * F, 0, 0));
    assert_eq!((t0.p2.x(), t0.p2.y(), t0.p2.z()), (0, 2 * F, 0));
}

#[test]
fn decimal_parsing() {
    assert_eq!(parse_decimal(b"1.25"), Some(F + F / 4));
    assert_eq!(parse_decimal(b"-0.5"), Some(-(F / 2)));
    assert_eq!(parse_decimal(b"12"), Some(12 * F));
    assert_eq!(parse_decimal(b"-3"), Some(-3 * F));
    assert_eq!(parse_decimal(b"0.0"), Some(0));
    assert_eq!(parse_decimal(b".5"), Some(F / 2));
    assert_eq!(parse_decimal(b"5."), Some(5 * F));
    assert_eq!(parse_decimal(b""), None);
    assert_eq!(parse_decimal(b"."), None);
    assert_eq!(parse_decimal(b"1.2.3"), None);
    assert_eq!(parse_decimal(b"abc"), None);
    assert_eq!(parse_decimal(b"1a"), None);
}

#[test]
fn face_token_parsing() {
    assert_eq!(parse_face_token(b"1//2"), Some((1, 2)));
    assert_eq!(parse_face_token(b"12//34"), Some((12, 34)));
    assert_eq!(parse_face_token(b"1/2"), None);
    assert_eq!(parse_face_token(b"//2"), None);
    assert_eq!(parse_face_token(b"1//"), None);
    assert_eq!(parse_face_token(b"abc"), None);
    // extra groups after the second are ignored: the token is split on
    // `//` and only the first two pieces are read
    assert_eq!(parse_face_token(b"1//2//3"), Some((1, 2)));
}

#[test]
fn tokenizer_splits_on_whitespace() {
    let toks = split_tokens(b"v  1.0\t2.0 3.0 ");
    assert_eq!(toks.len(), 4);
    assert_eq!(toks[0], b"v".to_vec());
    assert_eq!(toks[1], b"1.0".to_vec());
    assert_eq!(toks[3], b"3.0".to_vec());
}

#[test]
fn loader_parses_model_lines() {
    let mut loader = OBJLoader::new();
    assert!(loader.parse_line(b"# comment"));
    assert!(loader.parse_line(b"v 1 2 3"));
    assert!(loader.parse_line(b"v 0.5 -0.5 0"));
    assert!(loader.parse_line(b"vn 0 0 1"));
    assert!(loader.parse_line(b"f 1//1 2//1 3//1"));
    assert_eq!(loader.vertices.len(), 2);
    assert_eq!(loader.vertices[0], (F, 2 * F, 3 * F));
    assert_eq!(loader.vertices[1], (F / 2, -(F / 2), 0));
    assert_eq!(loader.normals.len(), 1);
    assert_eq!(loader.faces.len(), 1);
    assert_eq!(loader.faces[0], vec![(1, 1), (2, 1), (3, 1)]);
    // malformed numeric token fails the line
    assert!(!loader.parse_line(b"v 1 x 3"));
    // wrong arity is a malformed line and fails too
    assert!(!loader.parse_line(b"v 1 2"));
    assert_eq!(loader.vertices.len(), 2);
    // malformed face token fails the line
    assert!(!loader.parse_line(b"f 1//1 2"));
}

#[test]
fn triangles_from_loaded_faces() {
    let mut loader = OBJLoader::new();
    assert!(loader.parse_line(b"v 0 0 0"));
    assert!(loader.parse_line(b"v 3 0 0"));
    assert!(loader.parse_line(b"v 0 3 0"));
    assert!(loader.parse_line(b"f 1//1 2//1 3//1"));
    let m = grey_mat();
    let ts = load_obj_triangles(&loader, m).expect("valid face");
    assert_eq!(ts.len(), 1);
    assert_eq!((ts[0].p1.x(), ts[0].p1.y(), ts[0].p1.z()), (3 * F, 0, 0));
    assert_eq!((ts[0].normal.x(), ts[0].normal.y(), ts[0].normal.z()), (0, 0, F));

    // out-of-range index fails the load
    let mut bad = OBJLoader::new();
    assert!(bad.parse_line(b"v 0 0 0"));
    assert!(bad.parse_line(b"f 1//1 2//1 3//1"));
    assert!(load_obj_triangles(&bad, m).is_none());

    // a zero index fails the load
    let mut zero = OBJLoader::new();
    assert!(zero.parse_line(b"v 0 0 0"));
    assert!(zero.parse_line(b"v 3 0 0"));
    assert!(zero.parse_line(b"v 0 3 0"));
    assert!(zero.parse_line(b"f 0//1 2//1 3//1"));
    assert!(load_obj_triangles(&zero, m).is_none());

    // a non-triangular face fails the load
    let mut quad = OBJLoader::new();
    assert!(quad.parse_line(b"v 0 0 0"));
    assert!(quad.parse_line(b"v 3 0 0"));
    assert!(quad.parse_line(b"v 0 3 0"));
    assert!(quad.parse_line(b"v 3 3 0"));
    assert!(quad.parse_line(b"f 1//1 2//1 3//1 4//1"));
    assert!(load_obj_triangles(&quad, m).is_none());

    // a degenerate (collinear) face fails the load
    let mut degen = OBJLoader::new();
    assert!(degen.parse_line(b"v 0 0 0"));
    assert!(degen.parse_line(b"v 1 0 0"));
    assert!(degen.parse_line(b"v 2 0 0"));
    assert!(degen.parse_line(b"f 1//1 2//1 3//1"));
    assert!(load_obj_triangles(&degen, m).is_none());
}

#[test]
fn samplers_stay_in_range() {
    for _ in 0..50 {
        let p = Vec3::random_in_unit_sphere();
        assert!(p.length_squared() < F);
        let u = m1_raytracer::vec3::random_unit_vector();
        let len = u.length();
        assert!((len - F).abs() <= 4096, "unit vector length {}", len);
        let r = Vec3::random(-F, F);
        assert!(-F <= r.x() && r.x() < F);
        assert!(-F <= r.y() && r.y() < F);
        assert!(-F <= r.z() && r.z() < F);
    }
}
