//! Mapping demodulated samples to pixel colors.
//!
//! The Y/I/Q-to-RGB conversion uses the fixed matrix
//!
//! ```text
//! R = Y + 2.4563 I + 1.6190 Q
//! G = Y - 0.2721 I - 0.6474 Q
//! B = Y - 1.1070 I + 1.7046 Q
//! ```
//!
//! carried exactly as rationals over 10000. Each channel is scaled by 255
//! and clamped into `[0, 255]`; alpha is fixed at 255. The coefficients are
//! design constants of the signal's color-difference encoding, not tunable
//! parameters.
//!
//! The plain-luma path colors a smoothing-window sum directly as a gray
//! level, for the monochrome live render.

use vstd::prelude::*;
use crate::config::{YIQ_ONE, WIN_LENGTH};
use crate::volt::{VOLT_DEN, VOLT_NUM};
use crate::fixed::{spec_clamp, spec_muldiv, clamp_i64, muldiv};
use crate::demod::YiqSample;

verus! {

/// The red mix of a normalized Y/I/Q triple, in `YIQ_ONE` units.
pub open spec fn spec_red(y: int, i: int, q: int) -> int {
    y + spec_muldiv(i, 24563, 10000) + spec_muldiv(q, 16190, 10000)
}

/// The green mix of a normalized Y/I/Q triple, in `YIQ_ONE` units.
pub open spec fn spec_green(y: int, i: int, q: int) -> int {
    y - spec_muldiv(i, 2721, 10000) - spec_muldiv(q, 6474, 10000)
}

/// The blue mix of a normalized Y/I/Q triple, in `YIQ_ONE` units.
pub open spec fn spec_blue(y: int, i: int, q: int) -> int {
    y - spec_muldiv(i, 11070, 10000) + spec_muldiv(q, 17046, 10000)
}

/// A channel mix scaled by 255 and clamped to one byte.
pub open spec fn spec_to_byte(v: int) -> int {
    spec_clamp(spec_muldiv(v, 255, YIQ_ONE as int), 0, 255)
}

/// One packed color: 8-bit channels, alpha always 255.
#[derive(Clone, Copy, PartialEq, Eq, Structural, Debug)]
pub struct Rgba {
    pub r: u8,
    pub g: u8,
    pub b: u8,
    pub a: u8,
}

/// Scales one channel mix to its output byte.
fn mix_to_byte(v: i64) -> (b: u8)
    requires
        -0x100_0000_0000 <= v <= 0x100_0000_0000,
    ensures
        b == spec_to_byte(v as int),
{
    proof {
        assert(-0x100_0000_0000 * 255 <= v * 255 <= 0x100_0000_0000 * 255)
            by (nonlinear_arith)
            requires
                -0x100_0000_0000 <= v <= 0x100_0000_0000,
        ;
    }
    let scaled = muldiv(v, 255, YIQ_ONE);
    let c = clamp_i64(scaled, 0, 255);
    c as u8
}

/// Converts one demodulated sample to its RGBA color: the fixed conversion
/// matrix, each channel scaled by 255, clamped to a byte, alpha 255.
pub fn yiq_to_rgb(s: &YiqSample) -> (c: Rgba)
    requires
        s.wf(),
    ensures
        c.r == spec_to_byte(spec_red(s.y as int, s.i as int, s.q as int)),
        c.g == spec_to_byte(spec_green(s.y as int, s.i as int, s.q as int)),
        c.b == spec_to_byte(spec_blue(s.y as int, s.i as int, s.q as int)),
        c.a == 255,
{
    proof {
        assert(-65536 * 24563 <= s.i * 24563 <= 65536 * 24563 && -65536 * 16190 <= s.q
            * 16190 <= 65536 * 16190 && -65536 * 2721 <= s.i * 2721 <= 65536 * 2721
            && -65536 * 6474 <= s.q * 6474 <= 65536 * 6474 && -65536 * 11070 <= s.i * 11070
            <= 65536 * 11070 && -65536 * 17046 <= s.q * 17046 <= 65536 * 17046)
            by (nonlinear_arith)
            requires
                -65536 <= s.i <= 65536,
                -65536 <= s.q <= 65536,
        ;
    }
    let ri = muldiv(s.i, 24563, 10000);
    let rq = muldiv(s.q, 16190, 10000);
    let gi = muldiv(s.i, 2721, 10000);
    let gq = muldiv(s.q, 6474, 10000);
    let bi = muldiv(s.i, 11070, 10000);
    let bq = muldiv(s.q, 17046, 10000);
    let r = mix_to_byte(s.y + ri + rq);
    let g = mix_to_byte(s.y - gi - gq);
    let b = mix_to_byte(s.y - bi + bq);
    Rgba { r, g, b, a: 255 }
}

/// A color packed into one `0x00RRGGBB` word.
pub open spec fn spec_pack(r: int, g: int, b: int) -> int {
    r * 65536 + g * 256 + b
}

/// Packs a color into one `0x00RRGGBB` pixel word.
pub fn pack_pixel(c: Rgba) -> (p: u32)
    ensures
        p == spec_pack(c.r as int, c.g as int, c.b as int),
{
    (c.r as u32) * 65536 + (c.g as u32) * 256 + (c.b as u32)
}

/// The gray level of one smoothing-window voltage sum: the window average
/// normalized against the full voltage range and scaled to a byte
/// (negatives saturate to zero, values past 255 clamp to 255).
pub open spec fn spec_luma_level(sum: int) -> int {
    spec_clamp(spec_muldiv(sum, 255, VOLT_DEN as int * WIN_LENGTH as int * VOLT_NUM as int), 0, 255)
}

/// The packed gray color of one smoothing-window voltage sum: the luma
/// level replicated into the red, green and blue channels.
pub open spec fn spec_volt_to_color(sum: int) -> int {
    spec_pack(spec_luma_level(sum), spec_luma_level(sum), spec_luma_level(sum))
}

/// Colors one smoothing-window voltage sum as a packed gray pixel word.
pub fn volt_to_color(value: i64) -> (c: u32)
    requires
        -0x1_0000_0000 <= value <= 0x1_0000_0000,
    ensures
        c == spec_volt_to_color(value as int),
{
    proof {
        assert(-0x1_0000_0000 * 255 <= value * 255 <= 0x1_0000_0000 * 255)
            by (nonlinear_arith)
            requires
                -0x1_0000_0000 <= value <= 0x1_0000_0000,
        ;
    }
    let scaled = muldiv(value, 255, VOLT_DEN * (WIN_LENGTH as i64) * VOLT_NUM);
    let lum = clamp_i64(scaled, 0, 255);
    let lum32 = lum as u32;
    lum32 * 65536 + lum32 * 256 + lum32
}

} // verus!
