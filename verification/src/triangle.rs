//! Ray/triangle intersection by the Möller–Trumbore algorithm.

use vstd::prelude::*;

verus! {

use crate::fixed::{abs_i, fx_add, fx_div, fx_div_m, fx_mul, fx_mul_m, sat64, FX_ONE};
use crate::hittable::{oriented_normal, HitRecord};
use crate::interval::Interval;
use crate::material::Material;
use crate::ray::{ray_at, Ray};
use crate::vec3::{lemma_len_positive, v_cross, v_dot, v_len, v_lensq, v_normalize, v_sub, Point3, Vec3};

#[derive(Copy, Clone, Debug, PartialEq, Eq, Structural)]
pub struct Triangle {
    pub p0: Point3,
    pub p1: Point3,
    pub p2: Point3,
    pub normal: Vec3,
    pub mat: Material,
}

/// The parameter at which a ray strikes a triangle: no hit when the ray is
/// parallel to the plane (zero determinant in fixed point), when a
/// barycentric coordinate falls outside `[0, 1]` or the pair sums past one,
/// or when the parameter is not in `(0, tmax)`. Unlike the sphere, the
/// search interval's lower end is never consulted: only a fixed epsilon
/// floor (one representation step) and the upper bound are checked.
pub open spec fn triangle_hit_t(tr: Triangle, r: Ray, tmax: int) -> Option<int> {
    let edge1 = v_sub(tr.p1, tr.p0);
    let edge2 = v_sub(tr.p2, tr.p0);
    let h = v_cross(r.dir, edge2);
    let a = v_dot(edge1, h);
    if a == 0 {
        None
    } else {
        let f = fx_div_m(FX_ONE as int, a);
        let s = v_sub(r.origin, tr.p0);
        let u = fx_mul_m(f, v_dot(s, h));
        if u < 0 || u > FX_ONE as int {
            None
        } else {
            let q = v_cross(s, edge1);
            let v = fx_mul_m(f, v_dot(r.dir, q));
            if v < 0 || sat64(u + v) > FX_ONE as int {
                None
            } else {
                let t = fx_mul_m(f, v_dot(edge2, q));
                if 0 < t < tmax {
                    Some(t)
                } else {
                    None
                }
            }
        }
    }
}

/// The record a triangle hit at parameter `t` produces: the point on the
/// ray and the precomputed face normal oriented against the ray.
pub open spec fn triangle_rec(tr: Triangle, r: Ray, t: int) -> HitRecord {
    let p = ray_at(r, t);
    (HitRecord {
        p,
        normal: oriented_normal(r, tr.normal),
        mat: tr.mat,
        t: t as i64,
        front_face: v_dot(tr.normal, r.dir) < 0,
    })
}

impl Triangle {
    /// The face normal is computed once, from the cross product of the two
    /// edges out of `p0`; the vertices must not be collinear in fixed point.
    pub fn new(p0: Point3, p1: Point3, p2: Point3, mat: Material) -> (r: Self)
        requires v_len(v_cross(v_sub(p1, p0), v_sub(p2, p0))) != 0,
        ensures
            r.p0 == p0,
            r.p1 == p1,
            r.p2 == p2,
            r.mat == mat,
            r.normal == v_normalize(v_cross(v_sub(p1, p0), v_sub(p2, p0))),
    {
        let edge1 = p1.sub(&p0);
        let edge2 = p2.sub(&p0);
        let normal = edge1.cross(&edge2).normalize();
        Triangle { p0, p1, p2, normal, mat }
    }

    /// On a hit, overwrite the record; on a miss, leave it untouched.
    pub fn hit(&self, r: &Ray, ray_t: &Interval, rec: &mut HitRecord) -> (result: bool)
        ensures
            result == triangle_hit_t(*self, *r, ray_t.max as int).is_some(),
            result ==> *final(rec) == triangle_rec(
                *self,
                *r,
                triangle_hit_t(*self, *r, ray_t.max as int).unwrap(),
            ),
            !result ==> *final(rec) == *old(rec),
    {
        let edge1 = self.p1.sub(&self.p0);
        let edge2 = self.p2.sub(&self.p0);
        let h = r.direction().cross(&edge2);
        let a: i64 = edge1.dot(&h);

        if a == 0 {
            return false;
        }

        let f: i64 = fx_div(FX_ONE, a);
        let s = r.origin().sub(&self.p0);
        let u: i64 = fx_mul(f, s.dot(&h));

        if u < 0 || u > FX_ONE {
            return false;
        }

        let q = s.cross(&edge1);
        let v: i64 = fx_mul(f, r.direction().dot(&q));

        if v < 0 || fx_add(u, v) > FX_ONE {
            return false;
        }

        let t: i64 = fx_mul(f, edge2.dot(&q));

        if t > 0 && t < ray_t.max {
            rec.t = t;
            rec.p = r.at(t);
            let outward_normal = self.normal;
            rec.set_normal_face(r, &outward_normal);
            rec.mat = self.mat;
            return true;
        }

        false
    }
}

/// A triangle as `create_cube` builds it.
pub open spec fn cube_tri(p0: Point3, p1: Point3, p2: Point3, mat: Material) -> Triangle {
    (Triangle {
        p0,
        p1,
        p2,
        normal: v_normalize(v_cross(v_sub(p1, p0), v_sub(p2, p0))),
        mat,
    })
}

/// The twelve face triangles of an axis-aligned cube with one corner at the
/// origin and the given edge length, all sharing one material.
pub open spec fn cube_model(material: Material, size: i64) -> Seq<Triangle> {
    let v0 = Vec3 { x: 0i64, y: 0i64, z: 0i64 };
    let v1 = Vec3 { x: size, y: 0i64, z: 0i64 };
    let v2 = Vec3 { x: size, y: size, z: 0i64 };
    let v3 = Vec3 { x: 0i64, y: size, z: 0i64 };
    let v4 = Vec3 { x: 0i64, y: 0i64, z: size };
    let v5 = Vec3 { x: size, y: 0i64, z: size };
    let v6 = Vec3 { x: size, y: size, z: size };
    let v7 = Vec3 { x: 0i64, y: size, z: size };
    seq![
        cube_tri(v0, v1, v3, material),
        cube_tri(v1, v2, v3, material),
        cube_tri(v4, v5, v7, material),
        cube_tri(v5, v6, v7, material),
        cube_tri(v0, v3, v4, material),
        cube_tri(v3, v7, v4, material),
        cube_tri(v1, v2, v5, material),
        cube_tri(v2, v6, v5, material),
        cube_tri(v3, v2, v7, material),
        cube_tri(v2, v6, v7, material),
        cube_tri(v0, v1, v4, material),
        cube_tri(v1, v5, v4, material),
    ]
}

/// The fixed-point products of cube edge components: a square of the edge
/// length stays within range and keeps its sign structure.
proof fn lemma_cube_products(s: int)
    requires 32768 <= s <= 1000000000000,
    ensures
        1024 <= fx_mul_m(s, s),
        fx_mul_m(s, s) == (s * s) / (FX_ONE as int),
        fx_mul_m(-s, s) == -fx_mul_m(s, s),
        fx_mul_m(s, -s) == -fx_mul_m(s, s),
        fx_mul_m(-s, -s) == fx_mul_m(s, s),
        fx_mul_m(s, 0) == 0,
        fx_mul_m(0, s) == 0,
        fx_mul_m(-s, 0) == 0,
        fx_mul_m(0, -s) == 0,
        fx_mul_m(0, 0) == 0,
{
    crate::fixed::lemma_fx_mul_zero(s);
    crate::fixed::lemma_fx_mul_zero(-s);
    crate::fixed::lemma_fx_mul_zero(0);
    assert(32768 * 32768 <= s * s && s * s <= 1000000000000000000000000) by (nonlinear_arith)
        requires 32768 <= s <= 1000000000000,
    ;
    vstd::arithmetic::div_mod::lemma_div_is_ordered(1073741824, s * s, FX_ONE as int);
    vstd::arithmetic::div_mod::lemma_div_is_ordered(
        s * s,
        1000000000000000000000000,
        FX_ONE as int,
    );
    assert(1073741824int / 1048576int == 1024) by (nonlinear_arith);
    assert(1000000000000000000000000int / 1048576int < 0x7FFF_FFFF_FFFF_FFFFint)
        by (nonlinear_arith);
}

/// A vector whose components are each zero or at least 1024 in magnitude,
/// not all zero, has a nonzero fixed-point length.
proof fn lemma_axis_nonzero(a: Vec3)
    requires
        a.x == 0 || abs_i(a.x as int) >= 1024,
        a.y == 0 || abs_i(a.y as int) >= 1024,
        a.z == 0 || abs_i(a.z as int) >= 1024,
        !(a.x == 0 && a.y == 0 && a.z == 0),
    ensures v_len(a) != 0,
{
    crate::fixed::lemma_fx_mul_zero(0);
    lemma_sq_pos(a.x as int);
    lemma_sq_pos(a.y as int);
    lemma_sq_pos(a.z as int);
    crate::vec3::lemma_lensq_nonneg(a);
    lemma_len_positive(a);
}

/// A component of magnitude at least 1024 squares to at least one unit.
proof fn lemma_sq_pos(x: int)
    ensures
        abs_i(x) >= 1024 ==> fx_mul_m(x, x) >= 1,
        x == 0 ==> fx_mul_m(x, x) == 0,
{
    crate::fixed::lemma_fx_mul_zero(0);
    if abs_i(x) >= 1024 {
        assert(abs_i(x) * abs_i(x) >= 1048576) by (nonlinear_arith)
            requires abs_i(x) >= 1024,
        ;
        vstd::arithmetic::div_mod::lemma_div_is_ordered(
            1048576,
            abs_i(x) * abs_i(x),
            FX_ONE as int,
        );
        assert(1048576int / 1048576int == 1) by (nonlinear_arith);
    }
}

/// Twelve triangles covering the faces of an axis-aligned cube with one
/// corner at the origin, all sharing one material.
///
/// The bounds on the edge length are exactly what the face normals need at
/// this resolution: a face's cross product has one component equal to the
/// fixed-point square of the edge, and its own squared length must stay
/// at least one representation step, which forces the square to at least
/// 1024 raw units and hence the edge to at least 32768 raw units (2^-5 in
/// real terms); the upper bound keeps the square from saturating, so the
/// normals keep their signs.
pub fn create_cube(material: Material, size: i64) -> (r: Vec<Triangle>)
    requires 32768 <= size <= 1000000000000,
    ensures r@ =~= cube_model(material, size),
{
    let v0 = Point3::new(0, 0, 0);
    let v1 = Point3::new(size, 0, 0);
    let v2 = Point3::new(size, size, 0);
    let v3 = Point3::new(0, size, 0);
    let v4 = Point3::new(0, 0, size);
    let v5 = Point3::new(size, 0, size);
    let v6 = Point3::new(size, size, size);
    let v7 = Point3::new(0, size, size);

    proof {
        lemma_cube_products(size as int);
        let m = fx_mul_m(size as int, size as int);
        lemma_axis_nonzero(v_cross(v_sub(v1, v0), v_sub(v3, v0)));
        lemma_axis_nonzero(v_cross(v_sub(v2, v1), v_sub(v3, v1)));
        lemma_axis_nonzero(v_cross(v_sub(v5, v4), v_sub(v7, v4)));
        lemma_axis_nonzero(v_cross(v_sub(v6, v5), v_sub(v7, v5)));
        lemma_axis_nonzero(v_cross(v_sub(v3, v0), v_sub(v4, v0)));
        lemma_axis_nonzero(v_cross(v_sub(v7, v3), v_sub(v4, v3)));
        lemma_axis_nonzero(v_cross(v_sub(v2, v1), v_sub(v5, v1)));
        lemma_axis_nonzero(v_cross(v_sub(v6, v2), v_sub(v5, v2)));
        lemma_axis_nonzero(v_cross(v_sub(v2, v3), v_sub(v7, v3)));
        lemma_axis_nonzero(v_cross(v_sub(v6, v2), v_sub(v7, v2)));
        lemma_axis_nonzero(v_cross(v_sub(v1, v0), v_sub(v4, v0)));
        lemma_axis_nonzero(v_cross(v_sub(v5, v1), v_sub(v4, v1)));
    }

    let mut out: Vec<Triangle> = Vec::new();
    out.push(Triangle::new(v0, v1, v3, material));
    out.push(Triangle::new(v1, v2, v3, material));
    out.push(Triangle::new(v4, v5, v7, material));
    out.push(Triangle::new(v5, v6, v7, material));
    out.push(Triangle::new(v0, v3, v4, material));
    out.push(Triangle::new(v3, v7, v4, material));
    out.push(Triangle::new(v1, v2, v5, material));
    out.push(Triangle::new(v2, v6, v5, material));
    out.push(Triangle::new(v3, v2, v7, material));
    out.push(Triangle::new(v2, v6, v7, material));
    out.push(Triangle::new(v0, v1, v4, material));
    out.push(Triangle::new(v1, v5, v4, material));
    out
}

} // verus!
