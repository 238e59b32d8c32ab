//! Fixed-point scalar arithmetic.
//!
//! All geometry in this crate is carried out on `i64` values in Q43.20
//! fixed-point form: a raw value `x` stands for the real number `x / 2^20`.
//! Every operation saturates at the `i64` range instead of wrapping, so the
//! arithmetic is total and the contracts below pin each result down exactly.

use vstd::prelude::*;

verus! {

/// Raw representation of the scalar 1.
pub const FX_ONE: i64 = 1048576;

/// Clamp an unbounded integer into the `i64` range.
pub open spec fn sat64(x: int) -> int {
    if x > i64::MAX as int {
        i64::MAX as int
    } else if x < i64::MIN as int {
        i64::MIN as int
    } else {
        x
    }
}

/// Absolute value on `int`.
pub open spec fn abs_i(x: int) -> int {
    if x < 0 { -x } else { x }
}

/// Attach a sign to a non-negative magnitude.
pub open spec fn signed(neg: bool, m: int) -> int {
    if neg { -m } else { m }
}

/// Model of fixed-point multiplication: the product scaled down by one unit,
/// truncated toward zero, saturated to the `i64` range.
pub open spec fn fx_mul_m(a: int, b: int) -> int {
    sat64(signed((a < 0) != (b < 0), (abs_i(a) * abs_i(b)) / (FX_ONE as int)))
}

/// Model of fixed-point division: the quotient scaled up by one unit,
/// truncated toward zero, saturated to the `i64` range.
pub open spec fn fx_div_m(a: int, b: int) -> int
    recommends b != 0,
{
    sat64(signed((a < 0) != (b < 0), (abs_i(a) * (FX_ONE as int)) / abs_i(b)))
}

/// The integer square root: the largest `r` with `r * r <= n`.
pub open spec fn isqrt(n: int) -> int
    decreases n,
{
    if n <= 0 {
        0
    } else {
        let r = isqrt(n - 1);
        if (r + 1) * (r + 1) <= n {
            r + 1
        } else {
            r
        }
    }
}

pub proof fn lemma_isqrt_bounds(n: int)
    requires n >= 0,
    ensures
        isqrt(n) >= 0,
        isqrt(n) * isqrt(n) <= n,
        n < (isqrt(n) + 1) * (isqrt(n) + 1),
    decreases n,
{
    if n > 0 {
        lemma_isqrt_bounds(n - 1);
        let r = isqrt(n - 1);
        assert((r + 1) * (r + 1) < (r + 2) * (r + 2)) by (nonlinear_arith)
            requires r >= 0,
        ;
    }
}

/// The bracketing `r*r <= n < (r+1)*(r+1)` has exactly one non-negative
/// solution, so it identifies `isqrt(n)`.
pub proof fn lemma_isqrt_unique(n: int, r: int)
    requires
        n >= 0,
        r >= 0,
        r * r <= n,
        n < (r + 1) * (r + 1),
    ensures
        r == isqrt(n),
{
    lemma_isqrt_bounds(n);
    let s = isqrt(n);
    if r < s {
        assert((r + 1) * (r + 1) <= s * s) by (nonlinear_arith)
            requires 0 <= r, r < s,
        ;
    }
    if s < r {
        assert((s + 1) * (s + 1) <= r * r) by (nonlinear_arith)
            requires 0 <= s, s < r,
        ;
    }
}

/// Multiplying by zero gives zero in the fixed-point model.
pub proof fn lemma_fx_mul_zero(a: int)
    ensures
        fx_mul_m(a, 0) == 0,
        fx_mul_m(0, a) == 0,
{
    assert(abs_i(a) * 0 == 0) by (nonlinear_arith);
    assert(0 * abs_i(a) == 0) by (nonlinear_arith);
    assert(0int / (FX_ONE as int) == 0) by (nonlinear_arith);
}

/// One is a fixed point of fixed-point multiplication by one.
pub proof fn lemma_fx_mul_one_one()
    ensures fx_mul_m(FX_ONE as int, FX_ONE as int) == FX_ONE as int,
{
    assert((1048576int * 1048576int) / 1048576int == 1048576int) by (nonlinear_arith);
}

/// Fixed-point division by a positive divisor is monotone in the dividend.
pub proof fn lemma_fx_div_mono(x1: int, x2: int, d: int)
    requires
        x1 <= x2,
        d > 0,
    ensures fx_div_m(x1, d) <= fx_div_m(x2, d),
{
    let f = FX_ONE as int;
    if x1 >= 0 {
        assert(x1 * f <= x2 * f) by (nonlinear_arith)
            requires x1 <= x2, f > 0,
        ;
        vstd::arithmetic::div_mod::lemma_div_is_ordered(x1 * f, x2 * f, d);
    } else if x2 >= 0 {
        assert((-x1) * f >= 0 && x2 * f >= 0) by (nonlinear_arith)
            requires x1 < 0, x2 >= 0, f > 0,
        ;
        vstd::arithmetic::div_mod::lemma_div_pos_is_pos((-x1) * f, d);
        vstd::arithmetic::div_mod::lemma_div_pos_is_pos(x2 * f, d);
    } else {
        assert((-x2) * f <= (-x1) * f) by (nonlinear_arith)
            requires x1 <= x2, x2 < 0, f > 0,
        ;
        vstd::arithmetic::div_mod::lemma_div_is_ordered((-x2) * f, (-x1) * f, d);
    }
}

/// Saturating addition.
pub fn fx_add(a: i64, b: i64) -> (r: i64)
    ensures r as int == sat64(a + b),
{
    let s: i128 = a as i128 + b as i128;
    if s > i64::MAX as i128 {
        i64::MAX
    } else if s < i64::MIN as i128 {
        i64::MIN
    } else {
        s as i64
    }
}

/// Saturating subtraction.
pub fn fx_sub(a: i64, b: i64) -> (r: i64)
    ensures r as int == sat64(a - b),
{
    let s: i128 = a as i128 - b as i128;
    if s > i64::MAX as i128 {
        i64::MAX
    } else if s < i64::MIN as i128 {
        i64::MIN
    } else {
        s as i64
    }
}

/// Saturating negation.
pub fn fx_neg(a: i64) -> (r: i64)
    ensures r as int == sat64(-a),
{
    if a == i64::MIN {
        i64::MAX
    } else {
        -a
    }
}

/// Magnitude of an `i64` as a `u64` (total, including `i64::MIN`).
fn abs_mag(a: i64) -> (m: u64)
    ensures m as int == abs_i(a as int),
{
    if a == i64::MIN {
        9223372036854775808u64
    } else if a < 0 {
        (-a) as u64
    } else {
        a as u64
    }
}

/// Turn a non-negative magnitude back into a signed, saturated `i64`.
fn apply_sign(neg: bool, mag: u128) -> (r: i64)
    ensures r as int == sat64(signed(neg, mag as int)),
{
    if neg {
        if mag >= 9223372036854775808u128 {
            i64::MIN
        } else {
            -(mag as i64)
        }
    } else {
        if mag > i64::MAX as u128 {
            i64::MAX
        } else {
            mag as i64
        }
    }
}

/// Fixed-point multiplication, truncating toward zero, saturated.
pub fn fx_mul(a: i64, b: i64) -> (r: i64)
    ensures r as int == fx_mul_m(a as int, b as int),
{
    let ma: u64 = abs_mag(a);
    let mb: u64 = abs_mag(b);
    proof {
        assert((ma as int) * (mb as int) <= u128::MAX as int) by (nonlinear_arith)
            requires
                0 <= ma as int <= 9223372036854775808,
                0 <= mb as int <= 9223372036854775808,
        ;
    }
    let prod: u128 = (ma as u128) * (mb as u128);
    let mag: u128 = prod / (FX_ONE as u128);
    apply_sign((a < 0) != (b < 0), mag)
}

/// Fixed-point division, truncating toward zero, saturated.
pub fn fx_div(a: i64, b: i64) -> (r: i64)
    requires b != 0,
    ensures r as int == fx_div_m(a as int, b as int),
{
    let ma: u64 = abs_mag(a);
    let mb: u64 = abs_mag(b);
    proof {
        assert((ma as int) * (FX_ONE as int) <= u128::MAX as int) by (nonlinear_arith)
            requires 0 <= ma as int <= 9223372036854775808,
        ;
    }
    let num: u128 = (ma as u128) * (FX_ONE as u128);
    let mag: u128 = num / (mb as u128);
    apply_sign((a < 0) != (b < 0), mag)
}

/// Fixed-point square root of a non-negative scalar: the raw result is the
/// integer square root of `x * 2^20`, so it approximates `sqrt(x / 2^20)`
/// in the same Q43.20 form.
pub fn fx_sqrt(x: i64) -> (r: i64)
    requires x >= 0,
    ensures r as int == isqrt(x as int * FX_ONE as int),
{
    proof {
        assert(x as int * FX_ONE as int <= 9223372036854775807int * 1048576int) by (nonlinear_arith)
            requires 0 <= x as int <= 9223372036854775807int, FX_ONE as int == 1048576int,
        ;
    }
    let n: u128 = (x as u128) * (FX_ONE as u128);
    let r: u128 = isqrt_u128(n);
    proof {
        assert(r as int <= 0x7FFF_FFFF_FFFF_FFFFint) by (nonlinear_arith)
            requires
                0 <= r as int,
                r as int * r as int <= n as int,
                n as int <= 9223372036854775807int * 1048576int,
        ;
        lemma_isqrt_unique(n as int, r as int);
    }
    r as i64
}

/// Integer square root by bisection: returns `r` with `r*r <= n < (r+1)*(r+1)`.
fn isqrt_u128(n: u128) -> (r: u128)
    requires n <= 0x3FFF_FFFF_FFFF_FFFF_FFFF_FFFF_FFFF_FFFFu128,
    ensures
        r * r <= n,
        n < (r + 1) * (r + 1),
{
    // Invariant frame: lo*lo <= n < hi*hi, so the answer lies in [lo, hi).
    let mut lo: u128 = 0;
    let mut hi: u128 = 0x8000_0000_0000_0000u128;
    proof {
        assert(n < hi as int * hi as int) by (nonlinear_arith)
            requires n <= 0x3FFF_FFFF_FFFF_FFFF_FFFF_FFFF_FFFF_FFFFu128, hi == 0x8000_0000_0000_0000u128,
        ;
    }
    while lo + 1 < hi
        invariant
            0 <= lo < hi <= 0x8000_0000_0000_0000u128,
            lo * lo <= n,
            n < hi * hi,
        decreases hi - lo,
    {
        let mid: u128 = lo + (hi - lo) / 2;
        proof {
            assert(mid * mid <= u128::MAX) by (nonlinear_arith)
                requires 0 <= mid <= 0x8000_0000_0000_0000u128,
            ;
        }
        if mid * mid <= n {
            lo = mid;
        } else {
            hi = mid;
        }
    }
    lo
}

} // verus!
