//! Colors are vectors: three fixed-point channels in linear light, gamma
//! corrected and quantized into bytes on output.

use vstd::prelude::*;

verus! {

use crate::fixed::{fx_sqrt, isqrt, FX_ONE};
use crate::interval::Interval;
use crate::vec3::Vec3;

pub type Color = Vec3;

/// Just below one: clamping to this bound keeps `256 * channel` below 256.
pub const CLAMP_MAX: i64 = 1047527;

/// Gamma correction: the square-root transform, with negative input
/// clamped to zero first.
pub open spec fn linear_to_gamma_m(c: int) -> int {
    if c > 0 {
        isqrt(c * FX_ONE as int)
    } else {
        0
    }
}

/// Clamp a corrected channel into `[0, CLAMP_MAX]`.
pub open spec fn clamp_channel_m(c: int) -> int {
    if c < 0 {
        0
    } else if c > CLAMP_MAX as int {
        CLAMP_MAX as int
    } else {
        c
    }
}

/// The byte a linear channel value quantizes to: gamma correct, clamp,
/// scale by 256 and truncate.
pub open spec fn quantize_m(c: int) -> int {
    (256 * clamp_channel_m(linear_to_gamma_m(c))) / (FX_ONE as int)
}

pub fn linear_to_gamma(linear_component: i64) -> (r: i64)
    ensures r as int == linear_to_gamma_m(linear_component as int),
{
    if linear_component > 0 {
        fx_sqrt(linear_component)
    } else {
        0
    }
}

/// A quantized channel never reaches 256.
pub proof fn lemma_quantize_bounds(c: int)
    ensures 0 <= quantize_m(c) <= 255,
{
    let g = clamp_channel_m(linear_to_gamma_m(c));
    if c > 0 {
        crate::fixed::lemma_isqrt_bounds(c * FX_ONE as int);
    }
    assert(0 <= g <= CLAMP_MAX as int);
    assert(256 * g <= 256 * CLAMP_MAX as int) by (nonlinear_arith)
        requires g <= CLAMP_MAX as int,
    ;
    vstd::arithmetic::div_mod::lemma_div_pos_is_pos(256 * g, FX_ONE as int);
    vstd::arithmetic::div_mod::lemma_div_is_ordered(
        256 * g,
        256 * CLAMP_MAX as int,
        FX_ONE as int,
    );
    assert((256 * 1047527int) / 1048576int == 255) by (nonlinear_arith);
}

/// Quantize one channel into a byte.
fn quantize_channel(c: i64, intensity: &Interval) -> (r: u8)
    requires
        intensity.min == 0,
        intensity.max == CLAMP_MAX,
    ensures r as int == quantize_m(c as int),
{
    let g: i64 = linear_to_gamma(c);
    let cl: i64 = intensity.clamp(g);
    proof {
        lemma_quantize_bounds(c as int);
        assert(256 * cl <= 256 * 1047527int) by (nonlinear_arith)
            requires cl <= 1047527int,
        ;
    }
    let scaled: i64 = 256 * cl;
    let b: i64 = scaled / FX_ONE;
    proof {
        vstd::arithmetic::div_mod::lemma_div_pos_is_pos(scaled as int, FX_ONE as int);
        vstd::arithmetic::div_mod::lemma_div_is_ordered(
            scaled as int,
            256 * 1047527int,
            FX_ONE as int,
        );
        assert((256 * 1047527int) / 1048576int == 255) by (nonlinear_arith);
    }
    b as u8
}

/// Gamma correct, clamp, and quantize a pixel's color into the byte buffer
/// at the pixel's four-channel slot, with a full-opacity alpha byte; out of
/// range writes are ignored, and no other byte changes.
pub fn write_color(
    pixel_color: Color,
    pixel_data: &mut Vec<u8>,
    img_width: usize,
    y: usize,
    x: usize,
)
    requires
        img_width < 0x4000,
        y < 0x4000,
        x < 0x4000,
    ensures
        final(pixel_data)@.len() == old(pixel_data)@.len(),
        ({
            let idx = (y * img_width + x) * 4;
            if idx + 3 < old(pixel_data)@.len() {
                final(pixel_data)@ == old(pixel_data)@.update(
                    idx as int,
                    quantize_m(pixel_color.x as int) as u8,
                ).update(idx + 1, quantize_m(pixel_color.y as int) as u8).update(
                    idx + 2,
                    quantize_m(pixel_color.z as int) as u8,
                ).update(idx + 3, 255u8)
            } else {
                final(pixel_data)@ == old(pixel_data)@
            }
        }),
{
    let intensity = Interval::new(0, CLAMP_MAX);
    let r_byte: u8 = quantize_channel(pixel_color.x(), &intensity);
    let g_byte: u8 = quantize_channel(pixel_color.y(), &intensity);
    let b_byte: u8 = quantize_channel(pixel_color.z(), &intensity);

    proof {
        assert(y * img_width < 0x1000_0000) by (nonlinear_arith)
            requires y < 0x4000, img_width < 0x4000,
        ;
    }
    let index: usize = (y * img_width + x) * 4;

    if index + 3 < pixel_data.len() {
        pixel_data.set(index, r_byte);
        pixel_data.set(index + 1, g_byte);
        pixel_data.set(index + 2, b_byte);
        pixel_data.set(index + 3, 255);
        proof {
            lemma_quantize_bounds(pixel_color.x as int);
            lemma_quantize_bounds(pixel_color.y as int);
            lemma_quantize_bounds(pixel_color.z as int);
        }
    }
}

} // verus!
