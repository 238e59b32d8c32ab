//! The scene aggregate: an ordered collection of primitives answering the
//! same hit query by a linear scan whose search interval tightens to the
//! closest hit found so far. The contract pins the result to the globally
//! nearest hit, independent of insertion order.

use vstd::prelude::*;

verus! {

use crate::hittable::HitRecord;
use crate::interval::Interval;
use crate::material::mat_wf;
use crate::ray::Ray;
use crate::sphere::{sphere_hit_t, sphere_rec, Sphere};
use crate::triangle::{triangle_hit_t, triangle_rec, Triangle};
use crate::vec3::v_lensq;

/// A primitive the scene can hold, as a closed sum over the fixed kinds.
#[derive(Copy, Clone, Debug, PartialEq, Eq, Structural)]
pub enum Hittable {
    Sphere(Sphere),
    Triangle(Triangle),
}

pub open spec fn hittable_wf(h: Hittable) -> bool {
    match h {
        Hittable::Sphere(s) => s.radius != 0 && mat_wf(s.mat),
        Hittable::Triangle(t) => mat_wf(t.mat),
    }
}

/// The hit parameter a primitive reports for the strict interval
/// `(tmin, tmax)`; the triangle consults only the upper bound.
pub open spec fn hittable_hit_t(h: Hittable, r: Ray, tmin: int, tmax: int) -> Option<int> {
    match h {
        Hittable::Sphere(s) => sphere_hit_t(s, r, tmin, tmax),
        Hittable::Triangle(t) => triangle_hit_t(t, r, tmax),
    }
}

/// The record a primitive produces for a hit at parameter `t`.
pub open spec fn hittable_rec(h: Hittable, r: Ray, t: int) -> HitRecord {
    match h {
        Hittable::Sphere(s) => sphere_rec(s, r, t),
        Hittable::Triangle(tr) => triangle_rec(tr, r, t),
    }
}

impl Hittable {
    pub fn hit(&self, r: &Ray, ray_t: &Interval, rec: &mut HitRecord) -> (result: bool)
        requires hittable_wf(*self),
        ensures
            result == hittable_hit_t(*self, *r, ray_t.min as int, ray_t.max as int).is_some(),
            result ==> *final(rec) == hittable_rec(
                *self,
                *r,
                hittable_hit_t(*self, *r, ray_t.min as int, ray_t.max as int).unwrap(),
            ),
            !result ==> *final(rec) == *old(rec),
    {
        match self {
            Hittable::Sphere(s) => s.hit(r, ray_t, rec),
            Hittable::Triangle(t) => t.hit(r, ray_t, rec),
        }
    }
}

/// A well-formed primitive's hit record carries its own well-formed
/// material.
pub proof fn lemma_hittable_rec_mat(h: Hittable, r: Ray, t: int)
    requires hittable_wf(h),
    ensures mat_wf(hittable_rec(h, r, t).mat),
{
}

/// Tightening the upper bound of the search interval keeps exactly the hits
/// whose parameter lies below the new bound, and changes no parameter.
pub proof fn lemma_hit_shrink(h: Hittable, r: Ray, tmin: int, tmax: int, tmax2: int)
    requires tmax2 <= tmax,
    ensures
        hittable_hit_t(h, r, tmin, tmax2) == (match hittable_hit_t(h, r, tmin, tmax) {
            Some(t) => if t < tmax2 {
                Some(t)
            } else {
                None::<int>
            },
            None => None::<int>,
        }),
{
    match h {
        Hittable::Sphere(s) => {
            let oc = crate::vec3::v_sub(s.center, r.origin);
            let a = v_lensq(r.dir);
            let hh = crate::vec3::v_dot(oc, r.dir);
            let c = crate::fixed::sat64(
                v_lensq(oc) - crate::fixed::fx_mul_m(s.radius as int, s.radius as int),
            );
            let disc = crate::fixed::sat64(
                crate::fixed::fx_mul_m(hh, hh) - crate::fixed::fx_mul_m(a, c),
            );
            crate::vec3::lemma_lensq_nonneg(r.dir);
            if a != 0 && disc >= 0 {
                let sqrtd = crate::fixed::isqrt(disc * crate::fixed::FX_ONE as int);
                crate::fixed::lemma_isqrt_bounds(disc * crate::fixed::FX_ONE as int);
                crate::fixed::lemma_fx_div_mono(
                    crate::fixed::sat64(hh - sqrtd),
                    crate::fixed::sat64(hh + sqrtd),
                    a,
                );
            }
        }
        Hittable::Triangle(_) => {}
    }
}

/// The smaller of two optional hit parameters; a tie keeps the first.
pub open spec fn better(a: Option<int>, b: Option<int>) -> Option<int> {
    match b {
        Some(y) => match a {
            Some(x) => if y < x {
                Some(y)
            } else {
                Some(x)
            },
            None => Some(y),
        },
        None => a,
    }
}

/// The best (smallest) hit parameter over `objs[i..]`, each tested against
/// the full interval, folded into the accumulator `acc`.
pub open spec fn best_hit_t(
    objs: Seq<Hittable>,
    i: int,
    r: Ray,
    tmin: int,
    tmax: int,
    acc: Option<int>,
) -> Option<int>
    decreases objs.len() - i,
{
    if i < 0 || i >= objs.len() {
        acc
    } else {
        best_hit_t(objs, i + 1, r, tmin, tmax, better(acc, hittable_hit_t(objs[i], r, tmin, tmax)))
    }
}

/// The globally nearest hit parameter of a scene. Opaque: it abbreviates
/// the fold `best_hit_t` from the first member, and proofs reveal it where
/// they relate the two.
#[verifier::opaque]
pub open spec fn list_best_t(objs: Seq<Hittable>, r: Ray, tmin: int, tmax: int) -> Option<int> {
    best_hit_t(objs, 0, r, tmin, tmax, None)
}

#[verifier::rlimit(100)]
#[verifier::spinoff_prover]
proof fn lemma_best_hit_props(objs: Seq<Hittable>, i: int, r: Ray, tmin: int, tmax: int, acc: Option<int>)
    requires 0 <= i <= objs.len(),
    ensures
        ({
            let res = best_hit_t(objs, i, r, tmin, tmax, acc);
            &&& (res is None ==> acc is None && (forall|k: int|
                i <= k < objs.len() ==> (#[trigger] hittable_hit_t(objs[k], r, tmin, tmax)) is None))
            &&& (res matches Some(t) ==> acc == Some(t) || (exists|k: int|
                i <= k < objs.len() && #[trigger] hittable_hit_t(objs[k], r, tmin, tmax) == Some(t)))
            &&& (forall|t: int, x: int|
                best_hit_t(objs, i, r, tmin, tmax, acc) == Some(t) && acc == Some(x) ==> t <= x)
            &&& (res matches Some(t) ==> (forall|k: int|
                i <= k < objs.len() ==> ((#[trigger] hittable_hit_t(objs[k], r, tmin, tmax))
                    matches Some(u) ==> t <= u)))
        }),
    decreases objs.len() - i,
{
    if i < objs.len() {
        let acc2 = better(acc, hittable_hit_t(objs[i], r, tmin, tmax));
        lemma_best_hit_props(objs, i + 1, r, tmin, tmax, acc2);
    }
}

/// Nearest hit wins. When the aggregate reports a hit, its parameter is
/// some member's hit parameter for the same interval, and no member hits
/// strictly nearer; when it reports a miss, no member hits at all. In
/// particular the reported parameter does not depend on insertion order.
pub proof fn lemma_nearest_wins(objs: Seq<Hittable>, r: Ray, tmin: int, tmax: int)
    ensures
        list_best_t(objs, r, tmin, tmax) is None ==> (forall|k: int|
            0 <= k < objs.len() ==> (#[trigger] hittable_hit_t(objs[k], r, tmin, tmax)) is None),
        list_best_t(objs, r, tmin, tmax) matches Some(t) ==> (exists|k: int|
            0 <= k < objs.len() && #[trigger] hittable_hit_t(objs[k], r, tmin, tmax) == Some(t)) && (
        forall|k: int|
            0 <= k < objs.len() ==> ((#[trigger] hittable_hit_t(objs[k], r, tmin, tmax)) matches
                Some(u) ==> t <= u)),
{
    reveal(list_best_t);
    lemma_best_hit_props(objs, 0, r, tmin, tmax, None::<int>);
}

/// For a two-member scene the reported hit parameter is the same in either
/// insertion order: the closer hit wins regardless.
#[verifier::rlimit(100)]
#[verifier::spinoff_prover]
pub proof fn lemma_pair_order_independent(a: Hittable, b: Hittable, r: Ray, tmin: int, tmax: int)
    ensures
        list_best_t(seq![a, b], r, tmin, tmax) == list_best_t(seq![b, a], r, tmin, tmax),
{
    reveal(list_best_t);
    let sab = seq![a, b];
    let sba = seq![b, a];
    assert(sab.len() == 2 && sab[0] == a && sab[1] == b);
    assert(sba.len() == 2 && sba[0] == b && sba[1] == a);
    reveal_with_fuel(best_hit_t, 3);
}

/// An empty scene never reports a hit.
pub proof fn lemma_empty_scene_misses(objs: Seq<Hittable>, r: Ray, tmin: int, tmax: int)
    requires objs.len() == 0,
    ensures list_best_t(objs, r, tmin, tmax) is None,
{
    reveal(list_best_t);
}

pub struct HittableList {
    pub objects: Vec<Hittable>,
}

pub open spec fn list_wf(l: HittableList) -> bool {
    forall|i: int| 0 <= i < l.objects@.len() ==> hittable_wf(#[trigger] l.objects@[i])
}

impl HittableList {
    pub fn new() -> (r: Self)
        ensures r.objects@ =~= Seq::<Hittable>::empty(),
    {
        HittableList { objects: Vec::new() }
    }

    pub fn add(&mut self, object: Hittable)
        ensures final(self).objects@ == old(self).objects@.push(object),
    {
        self.objects.push(object);
    }

    /// Linear scan with a tightening interval: returns whether any member
    /// was hit; on success the record holds the nearest hit of all members,
    /// independent of their order; on failure it is untouched.
    pub fn hit(&self, r: &Ray, ray_t: &Interval, rec: &mut HitRecord) -> (result: bool)
        requires list_wf(*self),
        ensures
            result == list_best_t(
                self.objects@,
                *r,
                ray_t.min as int,
                ray_t.max as int,
            ).is_some(),
            result ==> final(rec).t as int == list_best_t(
                self.objects@,
                *r,
                ray_t.min as int,
                ray_t.max as int,
            ).unwrap(),
            result ==> exists|k: int|
                0 <= k < self.objects@.len() && #[trigger] hittable_hit_t(
                    self.objects@[k],
                    *r,
                    ray_t.min as int,
                    ray_t.max as int,
                ) == Some(final(rec).t as int) && *final(rec) == hittable_rec(
                    self.objects@[k],
                    *r,
                    final(rec).t as int,
                ),
            !result ==> *final(rec) == *old(rec),
    {
        let ghost tmin: int = ray_t.min as int;
        let ghost tmax: int = ray_t.max as int;
        let mut hit_anything: bool = false;
        let mut closest_so_far: i64 = ray_t.max;
        let mut idx: usize = 0;
        while idx < self.objects.len()
            invariant
                0 <= idx <= self.objects.len(),
                list_wf(*self),
                tmin == ray_t.min as int,
                tmax == ray_t.max as int,
                !hit_anything ==> closest_so_far == ray_t.max && *rec == *old(rec),
                hit_anything ==> (closest_so_far as int) < tmax,
                hit_anything ==> exists|k: int|
                    0 <= k < idx && #[trigger] hittable_hit_t(self.objects@[k], *r, tmin, tmax)
                        == Some(closest_so_far as int) && *rec == hittable_rec(
                        self.objects@[k],
                        *r,
                        closest_so_far as int,
                    ),
                best_hit_t(
                    self.objects@,
                    idx as int,
                    *r,
                    tmin,
                    tmax,
                    if hit_anything {
                        Some(closest_so_far as int)
                    } else {
                        None::<int>
                    },
                ) == best_hit_t(self.objects@, 0, *r, tmin, tmax, None::<int>),
            decreases self.objects.len() - idx,
        {
            let obj = &self.objects[idx];
            proof {
                lemma_hit_shrink(*obj, *r, tmin, tmax, closest_so_far as int);
            }
            let shrunk = Interval::new(ray_t.min, closest_so_far);
            if obj.hit(r, &shrunk, rec) {
                hit_anything = true;
                closest_so_far = rec.t;
            }
            idx = idx + 1;
        }
        proof {
            reveal(list_best_t);
        }
        hit_anything
    }
}

} // verus!
