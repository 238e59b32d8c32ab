//! Fixed-point trigonometry for camera setup: truncated Taylor series for
//! sine and cosine, and their quotient for the tangent. The contracts state
//! exactly the polynomial each function computes.

use vstd::prelude::*;

verus! {

use crate::fixed::{fx_add, fx_div, fx_div_m, fx_mul, fx_mul_m, fx_sub, sat64, FX_ONE};

pub const FX_TWO: i64 = 2 * 1048576;

pub const FX_FACT3: i64 = 6 * 1048576;

pub const FX_FACT4: i64 = 24 * 1048576;

pub const FX_FACT5: i64 = 120 * 1048576;

pub const FX_FACT6: i64 = 720 * 1048576;

pub const FX_FACT7: i64 = 5040 * 1048576;

pub const FX_FACT8: i64 = 40320 * 1048576;

pub const FX_FACT9: i64 = 362880 * 1048576;

pub const FX_FACT10: i64 = 3628800 * 1048576;

pub const FX_FACT11: i64 = 39916800 * 1048576;

/// The Taylor polynomial of sine through the eleventh power, in fixed point.
pub open spec fn fx_sin_m(x: int) -> int {
    let x2 = fx_mul_m(x, x);
    let x3 = fx_mul_m(x, x2);
    let x5 = fx_mul_m(x3, x2);
    let x7 = fx_mul_m(x5, x2);
    let x9 = fx_mul_m(x7, x2);
    let x11 = fx_mul_m(x9, x2);
    sat64(
        sat64(
            sat64(
                sat64(
                    sat64(x - fx_div_m(x3, FX_FACT3 as int)) + fx_div_m(x5, FX_FACT5 as int),
                ) - fx_div_m(x7, FX_FACT7 as int),
            ) + fx_div_m(x9, FX_FACT9 as int),
        ) - fx_div_m(x11, FX_FACT11 as int),
    )
}

/// The Taylor polynomial of cosine through the tenth power, in fixed point.
pub open spec fn fx_cos_m(x: int) -> int {
    let x2 = fx_mul_m(x, x);
    let x4 = fx_mul_m(x2, x2);
    let x6 = fx_mul_m(x4, x2);
    let x8 = fx_mul_m(x6, x2);
    let x10 = fx_mul_m(x8, x2);
    sat64(
        sat64(
            sat64(
                sat64(
                    sat64(FX_ONE as int - fx_div_m(x2, FX_TWO as int)) + fx_div_m(
                        x4,
                        FX_FACT4 as int,
                    ),
                ) - fx_div_m(x6, FX_FACT6 as int),
            ) + fx_div_m(x8, FX_FACT8 as int),
        ) - fx_div_m(x10, FX_FACT10 as int),
    )
}

/// The tangent as the quotient of the two polynomials; where the cosine
/// polynomial vanishes the result falls back to one.
pub open spec fn fx_tan_m(x: int) -> int {
    let c = fx_cos_m(x);
    if c == 0 {
        FX_ONE as int
    } else {
        fx_div_m(fx_sin_m(x), c)
    }
}

pub fn fx_sin(x: i64) -> (r: i64)
    ensures r as int == fx_sin_m(x as int),
{
    let x2: i64 = fx_mul(x, x);
    let x3: i64 = fx_mul(x, x2);
    let x5: i64 = fx_mul(x3, x2);
    let x7: i64 = fx_mul(x5, x2);
    let x9: i64 = fx_mul(x7, x2);
    let x11: i64 = fx_mul(x9, x2);
    fx_sub(
        fx_add(
            fx_sub(
                fx_add(fx_sub(x, fx_div(x3, FX_FACT3)), fx_div(x5, FX_FACT5)),
                fx_div(x7, FX_FACT7),
            ),
            fx_div(x9, FX_FACT9),
        ),
        fx_div(x11, FX_FACT11),
    )
}

pub fn fx_cos(x: i64) -> (r: i64)
    ensures r as int == fx_cos_m(x as int),
{
    let x2: i64 = fx_mul(x, x);
    let x4: i64 = fx_mul(x2, x2);
    let x6: i64 = fx_mul(x4, x2);
    let x8: i64 = fx_mul(x6, x2);
    let x10: i64 = fx_mul(x8, x2);
    fx_sub(
        fx_add(
            fx_sub(
                fx_add(fx_sub(FX_ONE, fx_div(x2, FX_TWO)), fx_div(x4, FX_FACT4)),
                fx_div(x6, FX_FACT6),
            ),
            fx_div(x8, FX_FACT8),
        ),
        fx_div(x10, FX_FACT10),
    )
}

pub fn fx_tan(x: i64) -> (r: i64)
    ensures r as int == fx_tan_m(x as int),
{
    let c: i64 = fx_cos(x);
    if c == 0 {
        FX_ONE
    } else {
        fx_div(fx_sin(x), c)
    }
}

} // verus!
