//! Hit records: the output of a successful intersection query.

use vstd::prelude::*;

verus! {

use crate::material::{DefaultMaterial, Material};
use crate::ray::Ray;
use crate::vec3::{v_dot, v_neg, Point3, Vec3};

#[derive(Copy, Clone, Debug, PartialEq, Eq, Structural)]
pub struct HitRecord {
    pub p: Point3,
    pub normal: Vec3,
    pub mat: Material,
    pub t: i64,
    pub front_face: bool,
}

/// The normal stored in a record always opposes the incoming ray: it is the
/// outward normal when the ray arrives from outside (`front_face`), and the
/// flipped outward normal otherwise.
pub open spec fn oriented_normal(r: Ray, outward_normal: Vec3) -> Vec3 {
    if v_dot(outward_normal, r.dir) < 0 {
        outward_normal
    } else {
        v_neg(outward_normal)
    }
}

impl HitRecord {
    pub fn set_normal_face(&mut self, r: &Ray, outward_normal: &Vec3)
        ensures
            final(self).front_face == (v_dot(*outward_normal, r.dir) < 0),
            final(self).normal == oriented_normal(*r, *outward_normal),
            final(self).p == old(self).p,
            final(self).mat == old(self).mat,
            final(self).t == old(self).t,
    {
        self.front_face = outward_normal.dot(&r.direction()) < 0;
        self.normal = if self.front_face {
            *outward_normal
        } else {
            outward_normal.neg()
        };
    }
}

impl Default for HitRecord {
    fn default() -> (r: Self)
        ensures
            r.p == (Vec3 { x: 0i64, y: 0i64, z: 0i64 }),
            r.normal == (Vec3 { x: 0i64, y: 0i64, z: 0i64 }),
            r.mat == Material::Default(DefaultMaterial),
            r.t == 0,
            r.front_face == false,
    {
        HitRecord {
            p: Vec3 { x: 0, y: 0, z: 0 },
            normal: Vec3 { x: 0, y: 0, z: 0 },
            mat: Material::Default(DefaultMaterial),
            t: 0,
            front_face: false,
        }
    }
}

} // verus!
