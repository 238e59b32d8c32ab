//! Rays: parametric half-lines `origin + t * direction`.

use vstd::prelude::*;

verus! {

use crate::vec3::{v_add, v_scale, Point3, Vec3};

#[derive(Copy, Clone, Debug, PartialEq, Eq, Structural)]
pub struct Ray {
    pub origin: Point3,
    pub dir: Vec3,
}

/// The point a ray reaches at parameter `t`.
pub open spec fn ray_at(r: Ray, t: int) -> Point3 {
    v_add(r.origin, v_scale(r.dir, t))
}

impl Ray {
    pub fn new(origin: Point3, dir: Vec3) -> (r: Ray)
        ensures r == (Ray { origin, dir }),
    {
        Ray { origin, dir }
    }

    pub fn origin(&self) -> (r: Point3)
        ensures r == self.origin,
    {
        self.origin
    }

    pub fn direction(&self) -> (r: Vec3)
        ensures r == self.dir,
    {
        self.dir
    }

    pub fn at(&self, t: i64) -> (r: Point3)
        ensures r == ray_at(*self, t as int),
    {
        self.origin.add(&self.dir.scale(t))
    }
}

impl Default for Ray {
    fn default() -> (r: Self)
        ensures
            r.origin == (Vec3 { x: 0i64, y: 0i64, z: 0i64 }),
            r.dir == (Vec3 { x: 0i64, y: 0i64, z: 0i64 }),
    {
        Ray { origin: Vec3 { x: 0, y: 0, z: 0 }, dir: Vec3 { x: 0, y: 0, z: 0 } }
    }
}

} // verus!
