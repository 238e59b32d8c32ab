//! Three-component vectors over the fixed-point scalar.
//!
//! `Vec3` doubles as a spatial vector, a point (`Point3`) and a color, as in
//! any small ray-tracing kernel. Each operation's contract states the result
//! componentwise over the fixed-point models from `fixed`.

use vstd::prelude::*;

verus! {

use crate::fixed::{
    abs_i, fx_add, fx_div, fx_div_m, fx_mul, fx_mul_m, fx_neg, fx_sqrt, fx_sub, isqrt, sat64,
    FX_ONE,
};
use crate::rng::{random_scalar, random_scalar_range};

/// How many rejection-sampling attempts a sampler makes before falling back
/// to a fixed in-range value.
pub const SAMPLE_ATTEMPTS: u32 = 64;

/// A vector is near zero when every component is below one representation
/// step in magnitude, i.e. exactly zero in fixed point.
pub const NEAR_ZERO_EPS: i64 = 1;

#[derive(Copy, Clone, Debug, PartialEq, Eq, Structural)]
pub struct Vec3 {
    pub x: i64,
    pub y: i64,
    pub z: i64,
}

pub type Point3 = Vec3;

pub open spec fn v_add(a: Vec3, b: Vec3) -> Vec3 {
    (Vec3 {
        x: sat64(a.x + b.x) as i64,
        y: sat64(a.y + b.y) as i64,
        z: sat64(a.z + b.z) as i64,
    })
}

pub open spec fn v_sub(a: Vec3, b: Vec3) -> Vec3 {
    (Vec3 {
        x: sat64(a.x - b.x) as i64,
        y: sat64(a.y - b.y) as i64,
        z: sat64(a.z - b.z) as i64,
    })
}

pub open spec fn v_neg(a: Vec3) -> Vec3 {
    (Vec3 {
        x: sat64(-a.x) as i64,
        y: sat64(-a.y) as i64,
        z: sat64(-a.z) as i64,
    })
}

/// Scaling by a fixed-point scalar.
pub open spec fn v_scale(a: Vec3, s: int) -> Vec3 {
    (Vec3 {
        x: fx_mul_m(a.x as int, s) as i64,
        y: fx_mul_m(a.y as int, s) as i64,
        z: fx_mul_m(a.z as int, s) as i64,
    })
}

/// Componentwise product, used to apply an attenuation to a color.
pub open spec fn v_cmul(a: Vec3, b: Vec3) -> Vec3 {
    (Vec3 {
        x: fx_mul_m(a.x as int, b.x as int) as i64,
        y: fx_mul_m(a.y as int, b.y as int) as i64,
        z: fx_mul_m(a.z as int, b.z as int) as i64,
    })
}

pub open spec fn v_div(a: Vec3, s: int) -> Vec3 {
    (Vec3 {
        x: fx_div_m(a.x as int, s) as i64,
        y: fx_div_m(a.y as int, s) as i64,
        z: fx_div_m(a.z as int, s) as i64,
    })
}

pub open spec fn v_dot(a: Vec3, b: Vec3) -> int {
    sat64(
        sat64(fx_mul_m(a.x as int, b.x as int) + fx_mul_m(a.y as int, b.y as int))
            + fx_mul_m(a.z as int, b.z as int),
    )
}

pub open spec fn v_cross(a: Vec3, b: Vec3) -> Vec3 {
    (Vec3 {
        x: sat64(fx_mul_m(a.y as int, b.z as int) - fx_mul_m(a.z as int, b.y as int)) as i64,
        y: sat64(fx_mul_m(a.z as int, b.x as int) - fx_mul_m(a.x as int, b.z as int)) as i64,
        z: sat64(fx_mul_m(a.x as int, b.y as int) - fx_mul_m(a.y as int, b.x as int)) as i64,
    })
}

pub open spec fn v_lensq(a: Vec3) -> int {
    v_dot(a, a)
}

/// The fixed-point length: the integer square root of the squared length,
/// rescaled into Q43.20.
pub open spec fn v_len(a: Vec3) -> int {
    isqrt(v_lensq(a) * FX_ONE as int)
}

pub open spec fn v_normalize(a: Vec3) -> Vec3 {
    v_div(a, v_len(a))
}

pub open spec fn v_near_zero(a: Vec3) -> bool {
    abs_i(a.x as int) < NEAR_ZERO_EPS as int && abs_i(a.y as int) < NEAR_ZERO_EPS as int
        && abs_i(a.z as int) < NEAR_ZERO_EPS as int
}

pub proof fn lemma_fx_square_nonneg(a: int)
    ensures fx_mul_m(a, a) >= 0,
{
    assert(abs_i(a) * abs_i(a) >= 0) by (nonlinear_arith);
}

pub proof fn lemma_lensq_nonneg(a: Vec3)
    ensures v_lensq(a) >= 0,
{
    lemma_fx_square_nonneg(a.x as int);
    lemma_fx_square_nonneg(a.y as int);
    lemma_fx_square_nonneg(a.z as int);
}

impl Vec3 {
    pub fn x(&self) -> (r: i64)
        ensures r == self.x,
    {
        self.x
    }

    pub fn y(&self) -> (r: i64)
        ensures r == self.y,
    {
        self.y
    }

    pub fn z(&self) -> (r: i64)
        ensures r == self.z,
    {
        self.z
    }

    pub fn new(x: i64, y: i64, z: i64) -> (r: Vec3)
        ensures r == (Vec3 { x, y, z }),
    {
        Vec3 { x, y, z }
    }

    pub fn zero() -> (r: Vec3)
        ensures r == (Vec3 { x: 0i64, y: 0i64, z: 0i64 }),
    {
        Vec3 { x: 0, y: 0, z: 0 }
    }

    pub fn add(&self, other: &Vec3) -> (r: Vec3)
        ensures r == v_add(*self, *other),
    {
        Vec3 { x: fx_add(self.x, other.x), y: fx_add(self.y, other.y), z: fx_add(self.z, other.z) }
    }

    pub fn sub(&self, other: &Vec3) -> (r: Vec3)
        ensures r == v_sub(*self, *other),
    {
        Vec3 { x: fx_sub(self.x, other.x), y: fx_sub(self.y, other.y), z: fx_sub(self.z, other.z) }
    }

    pub fn neg(&self) -> (r: Vec3)
        ensures r == v_neg(*self),
    {
        Vec3 { x: fx_neg(self.x), y: fx_neg(self.y), z: fx_neg(self.z) }
    }

    pub fn scale(&self, s: i64) -> (r: Vec3)
        ensures r == v_scale(*self, s as int),
    {
        Vec3 { x: fx_mul(self.x, s), y: fx_mul(self.y, s), z: fx_mul(self.z, s) }
    }

    /// Componentwise product.
    pub fn mul(&self, other: &Vec3) -> (r: Vec3)
        ensures r == v_cmul(*self, *other),
    {
        Vec3 { x: fx_mul(self.x, other.x), y: fx_mul(self.y, other.y), z: fx_mul(self.z, other.z) }
    }

    pub fn div(&self, s: i64) -> (r: Vec3)
        requires s != 0,
        ensures r == v_div(*self, s as int),
    {
        Vec3 { x: fx_div(self.x, s), y: fx_div(self.y, s), z: fx_div(self.z, s) }
    }

    pub fn dot(&self, other: &Vec3) -> (r: i64)
        ensures r as int == v_dot(*self, *other),
    {
        fx_add(
            fx_add(fx_mul(self.x, other.x), fx_mul(self.y, other.y)),
            fx_mul(self.z, other.z),
        )
    }

    pub fn cross(&self, other: &Vec3) -> (r: Vec3)
        ensures r == v_cross(*self, *other),
    {
        Vec3 {
            x: fx_sub(fx_mul(self.y, other.z), fx_mul(self.z, other.y)),
            y: fx_sub(fx_mul(self.z, other.x), fx_mul(self.x, other.z)),
            z: fx_sub(fx_mul(self.x, other.y), fx_mul(self.y, other.x)),
        }
    }

    pub fn length_squared(&self) -> (r: i64)
        ensures
            r as int == v_lensq(*self),
            r >= 0,
    {
        proof {
            lemma_lensq_nonneg(*self);
        }
        self.dot(self)
    }

    pub fn length(&self) -> (r: i64)
        ensures
            r as int == v_len(*self),
            r >= 0,
    {
        let lsq: i64 = self.length_squared();
        let r: i64 = fx_sqrt(lsq);
        proof {
            crate::fixed::lemma_isqrt_bounds(lsq as int * FX_ONE as int);
        }
        r
    }

    pub fn unit_vector(&self) -> (r: Vec3)
        requires v_len(*self) != 0,
        ensures r == v_normalize(*self),
    {
        let len: i64 = self.length();
        self.div(len)
    }

    pub fn normalize(&self) -> (r: Vec3)
        requires v_len(*self) != 0,
        ensures r == v_normalize(*self),
    {
        let len: i64 = self.length();
        Vec3 { x: fx_div(self.x, len), y: fx_div(self.y, len), z: fx_div(self.z, len) }
    }

    pub fn near_zero(&self) -> (r: bool)
        ensures r == v_near_zero(*self),
    {
        self.x > -NEAR_ZERO_EPS && self.x < NEAR_ZERO_EPS && self.y > -NEAR_ZERO_EPS
            && self.y < NEAR_ZERO_EPS && self.z > -NEAR_ZERO_EPS && self.z < NEAR_ZERO_EPS
    }

    /// A vector with each component drawn uniformly from `[min, max)`.
    pub fn random(min: i64, max: i64) -> (r: Vec3)
        requires min < max,
        ensures
            min <= r.x < max,
            min <= r.y < max,
            min <= r.z < max,
    {
        Vec3 {
            x: random_scalar_range(min, max),
            y: random_scalar_range(min, max),
            z: random_scalar_range(min, max),
        }
    }

    /// Rejection sampling of a point inside the unit sphere; after
    /// `SAMPLE_ATTEMPTS` rejections it falls back to a fixed interior point.
    pub fn random_in_unit_sphere() -> (r: Vec3)
        ensures v_lensq(r) < FX_ONE as int,
    {
        let mut tries: u32 = 0;
        while tries < SAMPLE_ATTEMPTS
            invariant true,
            decreases SAMPLE_ATTEMPTS - tries,
        {
            let p = Vec3::random(-FX_ONE, FX_ONE);
            if p.length_squared() < FX_ONE {
                return p;
            }
            tries = tries + 1;
        }
        let fallback = Vec3 { x: FX_ONE / 2, y: 0, z: 0 };
        let l: i64 = fallback.length_squared();
        if l < FX_ONE {
            fallback
        } else {
            proof {
                crate::fixed::lemma_fx_mul_zero(0);
            }
            Vec3 { x: 0, y: 0, z: 0 }
        }
    }
}

/// Holds of a vector that came out of the unit-vector sampler: it is the
/// normalization of some representable point with positive squared length
/// at most one.
pub open spec fn is_unit_sample(u: Vec3) -> bool {
    exists|p: Vec3| 0 < v_lensq(p) <= FX_ONE as int && v_len(p) != 0 && u == v_normalize(p)
}

impl Default for Vec3 {
    fn default() -> (r: Self)
        ensures r == (Vec3 { x: 0i64, y: 0i64, z: 0i64 }),
    {
        Vec3 { x: 0, y: 0, z: 0 }
    }
}

/// Rejection sampling of a unit vector: a random point with positive squared
/// length at most one, normalized; after `SAMPLE_ATTEMPTS` rejections it
/// falls back to the x axis unit vector.
pub fn random_unit_vector() -> (r: Vec3)
    ensures is_unit_sample(r),
{
    let mut tries: u32 = 0;
    while tries < SAMPLE_ATTEMPTS
        invariant true,
        decreases SAMPLE_ATTEMPTS - tries,
    {
        let p = Vec3::random(-FX_ONE, FX_ONE);
        let lensq: i64 = p.length_squared();
        if 0 < lensq && lensq <= FX_ONE {
            proof {
                lemma_len_positive(p);
            }
            let u = p.normalize();
            proof {
                assert(0 < v_lensq(p) <= FX_ONE as int && v_len(p) != 0 && u == v_normalize(p));
            }
            return u;
        }
        tries = tries + 1;
    }
    let axis = Vec3 { x: FX_ONE, y: 0, z: 0 };
    proof {
        lemma_axis_unit();
    }
    let u = axis.normalize();
    proof {
        assert(0 < v_lensq(axis) <= FX_ONE as int && v_len(axis) != 0 && u == v_normalize(axis));
    }
    u
}

/// A nonzero fixed-point squared length forces a nonzero fixed-point length.
pub proof fn lemma_len_positive(a: Vec3)
    requires v_lensq(a) > 0,
    ensures v_len(a) > 0,
{
    crate::fixed::lemma_isqrt_bounds(v_lensq(a) * FX_ONE as int);
    let r = isqrt(v_lensq(a) * FX_ONE as int);
    assert(v_lensq(a) * FX_ONE as int >= FX_ONE as int) by (nonlinear_arith)
        requires v_lensq(a) >= 1,
    ;
    if r == 0 {
        assert((r + 1) * (r + 1) == 1) by (nonlinear_arith)
            requires r == 0,
        ;
    }
}

proof fn lemma_axis_unit()
    ensures
        v_lensq(Vec3 { x: FX_ONE, y: 0, z: 0 }) == FX_ONE as int,
        v_len(Vec3 { x: FX_ONE, y: 0, z: 0 }) == FX_ONE as int,
{
    let a = Vec3 { x: FX_ONE, y: 0, z: 0 };
    crate::fixed::lemma_fx_mul_one_one();
    crate::fixed::lemma_fx_mul_zero(0);
    assert(v_lensq(a) == FX_ONE as int);
    assert(FX_ONE as int * FX_ONE as int == 1099511627776int) by (nonlinear_arith);
    crate::fixed::lemma_isqrt_unique(1099511627776int, FX_ONE as int);
}

/// A hemisphere sampler: a random unit vector, flipped onto the
/// side of the given normal when its dot product is not positive.
pub fn random_on_hemisphere(normal: &Vec3) -> (r: Vec3)
    ensures
        exists|u: Vec3|
            #[trigger] is_unit_sample(u) && (if v_dot(u, *normal) > 0 {
                r == u
            } else {
                r == v_neg(u)
            }),
{
    let on_unit_sphere = random_unit_vector();
    if on_unit_sphere.dot(normal) > 0 {
        proof {
            assert(is_unit_sample(on_unit_sphere) && v_dot(on_unit_sphere, *normal) > 0);
        }
        on_unit_sphere
    } else {
        let flipped = on_unit_sphere.neg();
        proof {
            assert(is_unit_sample(on_unit_sphere) && flipped == v_neg(on_unit_sphere));
        }
        flipped
    }
}

/// Free-function form of `Vec3::unit_vector`.
pub fn unit_vector(v: Vec3) -> (r: Vec3)
    requires v_len(v) != 0,
    ensures r == v_normalize(v),
{
    let len: i64 = v.length();
    v.div(len)
}

} // verus!
