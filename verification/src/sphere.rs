//! Ray/sphere intersection by the closed-form quadratic.

use vstd::prelude::*;

verus! {

use crate::fixed::{fx_add, fx_div, fx_div_m, fx_mul, fx_mul_m, fx_sqrt, fx_sub, isqrt, sat64, FX_ONE};
use crate::hittable::{oriented_normal, HitRecord};
use crate::interval::Interval;
use crate::material::Material;
use crate::ray::{ray_at, Ray};
use crate::vec3::{v_div, v_dot, v_lensq, v_sub, Point3};

#[derive(Copy, Clone, Debug, PartialEq, Eq, Structural)]
pub struct Sphere {
    pub center: Point3,
    pub radius: i64,
    pub mat: Material,
}

/// The parameter at which a ray first strikes a sphere within the strict
/// interval `(tmin, tmax)`: the smaller quadratic root if it qualifies, the
/// larger root as a fallback, and no hit when the discriminant is negative,
/// the ray direction is degenerate, or neither root lies inside.
pub open spec fn sphere_hit_t(s: Sphere, r: Ray, tmin: int, tmax: int) -> Option<int> {
    let oc = v_sub(s.center, r.origin);
    let a = v_lensq(r.dir);
    let h = v_dot(oc, r.dir);
    let c = sat64(v_lensq(oc) - fx_mul_m(s.radius as int, s.radius as int));
    let disc = sat64(fx_mul_m(h, h) - fx_mul_m(a, c));
    if a == 0 || disc < 0 {
        None
    } else {
        let sqrtd = isqrt(disc * FX_ONE as int);
        let root1 = fx_div_m(sat64(h - sqrtd), a);
        let root2 = fx_div_m(sat64(h + sqrtd), a);
        if tmin < root1 < tmax {
            Some(root1)
        } else if tmin < root2 < tmax {
            Some(root2)
        } else {
            None
        }
    }
}

/// The record a sphere hit at parameter `t` produces: the point on the ray,
/// the outward normal scaled by the inverse radius and oriented against the
/// ray, and the sphere's material.
pub open spec fn sphere_rec(s: Sphere, r: Ray, t: int) -> HitRecord {
    let p = ray_at(r, t);
    let outward = v_div(v_sub(p, s.center), s.radius as int);
    (HitRecord {
        p,
        normal: oriented_normal(r, outward),
        mat: s.mat,
        t: t as i64,
        front_face: v_dot(outward, r.dir) < 0,
    })
}

impl Sphere {
    pub fn new(center: Point3, radius: i64, mat: Material) -> (r: Self)
        ensures
            r.center == center,
            r.radius == radius,
            r.mat == mat,
    {
        Sphere { center, radius, mat }
    }

    /// On a hit, overwrite the record with the nearest qualifying root's
    /// data; on a miss, leave the record untouched.
    pub fn hit(&self, r: &Ray, ray_t: &Interval, rec: &mut HitRecord) -> (result: bool)
        requires self.radius != 0,
        ensures
            result == sphere_hit_t(*self, *r, ray_t.min as int, ray_t.max as int).is_some(),
            result ==> *final(rec) == sphere_rec(
                *self,
                *r,
                sphere_hit_t(*self, *r, ray_t.min as int, ray_t.max as int).unwrap(),
            ),
            !result ==> *final(rec) == *old(rec),
    {
        let oc = self.center.sub(&r.origin());
        let a: i64 = r.direction().length_squared();
        if a == 0 {
            return false;
        }
        let h: i64 = oc.dot(&r.direction());
        let c: i64 = fx_sub(oc.length_squared(), fx_mul(self.radius, self.radius));
        let discriminant: i64 = fx_sub(fx_mul(h, h), fx_mul(a, c));
        if discriminant < 0 {
            return false;
        }
        let sqrtd: i64 = fx_sqrt(discriminant);

        let mut root: i64 = fx_div(fx_sub(h, sqrtd), a);
        if !ray_t.surrounds(root) {
            root = fx_div(fx_add(h, sqrtd), a);
            if !ray_t.surrounds(root) {
                return false;
            }
        }

        rec.t = root;
        rec.p = r.at(root);
        let outward_normal = rec.p.sub(&self.center).div(self.radius);
        rec.set_normal_face(r, &outward_normal);
        rec.mat = self.mat;

        true
    }
}

} // verus!
