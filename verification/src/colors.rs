//! Color codec for ARGB8888 pixels (0xAARRGGBB).
//!
//! Normalized channel values are fixed-point `i64` numbers scaled by
//! [`crate::fixed::FX_ONE`]: `0` is black, `FX_ONE` is full intensity.
//! Packing rounds each channel to the nearest byte; unpacking divides the
//! byte by 255 with no rounding, so a pack/unpack round trip reproduces a
//! channel only to within one part in 255 — that asymmetry is part of the
//! codec's contract, not an accident.

use vstd::prelude::*;

verus! {

use crate::fixed::div_floor;
use crate::fixed::DIV_LIMIT;
use crate::fixed::FX_HALF;
use crate::fixed::FX_ONE;
use vstd::arithmetic::div_mod::lemma_div_is_ordered;
use vstd::arithmetic::div_mod::lemma_div_pos_is_pos;
use vstd::arithmetic::div_mod::lemma_fundamental_div_mod;
use vstd::arithmetic::div_mod::lemma_hoist_over_denominator;

/// Background color for the frame buffer (dark gray).
pub const BACKGROUND: u32 = 0xFF1E1E1E;

/// Grid line color (medium gray).
pub const GRID: u32 = 0xFF333333;

/// Default triangle fill color (gray).
pub const FILL: u32 = 0xFF888888;

/// Wireframe edge color (green).
pub const WIREFRAME: u32 = 0xFF00FF00;

/// Vertex marker color (red).
pub const VERTEX: u32 = 0xFFFF0000;

/// Largest intensity magnitude accepted by [`modulate`].
pub const INTENSITY_LIMIT: i64 = 0x8_0000_0000_0000;

/// Largest interpolation-parameter magnitude accepted by [`lerp_color`].
pub const LERP_LIMIT: i64 = 0x100_0000_0000;

/// The alpha byte of a packed color.
pub open spec fn byte_a(c: u32) -> u32 {
    (c >> 24) & 0xFF
}

/// The red byte of a packed color.
pub open spec fn byte_r(c: u32) -> u32 {
    (c >> 16) & 0xFF
}

/// The green byte of a packed color.
pub open spec fn byte_g(c: u32) -> u32 {
    (c >> 8) & 0xFF
}

/// The blue byte of a packed color.
pub open spec fn byte_b(c: u32) -> u32 {
    c & 0xFF
}

/// A normalized channel rounded to the nearest byte (halves up).
pub open spec fn round_to_byte(ch: int) -> int {
    (255 * ch + FX_HALF) / (FX_ONE as int)
}

/// A byte turned back into a normalized channel: `byte / 255`, floored.
pub open spec fn byte_to_fx(byte: int) -> int {
    byte * (FX_ONE as int) / 255
}

/// How [`modulate`] scales one color byte: negative intensities clamp to
/// zero, the product is floored at scale `FX_ONE`, and the result
/// saturates at 255.
pub open spec fn modulate_byte(byte: int, intensity: int) -> int {
    if intensity < 0 {
        0
    } else if byte * intensity / (FX_ONE as int) > 255 {
        255
    } else {
        byte * intensity / (FX_ONE as int)
    }
}

/// The packed color with the four given bytes, alpha most significant.
pub open spec fn argb(a: int, r: int, g: int, b: int) -> u32 {
    (a * 0x100_0000 + r * 0x1_0000 + g * 0x100 + b) as u32
}

/// The color produced by packing four normalized channels: each rounded
/// to its nearest byte, then combined alpha-first.
pub open spec fn pack_rgba(r: int, g: int, b: int, a: int) -> u32 {
    argb(round_to_byte(a), round_to_byte(r), round_to_byte(g), round_to_byte(b))
}

/// One channel of [`lerp_color`]: `a + (b - a) * t`, floored at scale `FX_ONE`.
pub open spec fn lerp_fx(a: int, b: int, t: int) -> int {
    a + (b - a) * t / (FX_ONE as int)
}

/// Every byte extracted from a `u32` is at most 255.
pub proof fn lemma_byte_bounds(c: u32)
    ensures
        byte_a(c) <= 255,
        byte_r(c) <= 255,
        byte_g(c) <= 255,
        byte_b(c) <= 255,
{
    assert((c >> 24) & 0xFF <= 255 && (c >> 16) & 0xFF <= 255 && (c >> 8) & 0xFF <= 255 && c
        & 0xFF <= 255) by (bit_vector);
}

/// Packing four bytes and extracting them again is the identity.
proof fn lemma_pack_bytes(a: u32, r: u32, g: u32, b: u32)
    requires
        a <= 255,
        r <= 255,
        g <= 255,
        b <= 255,
    ensures
        byte_a((a << 24) | (r << 16) | (g << 8) | b) == a,
        byte_r((a << 24) | (r << 16) | (g << 8) | b) == r,
        byte_g((a << 24) | (r << 16) | (g << 8) | b) == g,
        byte_b((a << 24) | (r << 16) | (g << 8) | b) == b,
        (a << 24) | (r << 16) | (g << 8) | b == argb(a as int, r as int, g as int, b as int),
{
    let c = (a << 24) | (r << 16) | (g << 8) | b;
    assert((c >> 24) & 0xFF == a && (c >> 16) & 0xFF == r && (c >> 8) & 0xFF == g && c & 0xFF
        == b && c == a * 0x100_0000 + r * 0x1_0000 + g * 0x100 + b) by (bit_vector)
        requires
            c == (a << 24) | (r << 16) | (g << 8) | b,
            a <= 255,
            r <= 255,
            g <= 255,
            b <= 255,
    ;
    assert(a * 0x100_0000 + r * 0x1_0000 + g * 0x100 + b <= 0xFFFF_FFFF);
}

/// Rounding a normalized channel to a byte lands in `[0, 255]`.
proof fn lemma_round_to_byte_bounds(ch: int)
    requires
        0 <= ch <= FX_ONE,
    ensures
        0 <= round_to_byte(ch) <= 255,
{
    lemma_div_pos_is_pos(255 * ch + FX_HALF, FX_ONE as int);
    lemma_div_is_ordered(255 * ch + FX_HALF, 255 * (FX_ONE as int) + FX_HALF, FX_ONE as int);
}

/// Unpack an ARGB8888 color into its red, green and blue channels, each a
/// fixed-point value in `[0, FX_ONE]` (the byte divided by 255, floored).
pub fn unpack_color(color: u32) -> (rgb: (i64, i64, i64))
    ensures
        rgb.0 == byte_to_fx(byte_r(color) as int),
        rgb.1 == byte_to_fx(byte_g(color) as int),
        rgb.2 == byte_to_fx(byte_b(color) as int),
        0 <= rgb.0 <= FX_ONE,
        0 <= rgb.1 <= FX_ONE,
        0 <= rgb.2 <= FX_ONE,
{
    proof {
        lemma_byte_bounds(color);
    }
    let r = ((color >> 16) & 0xFF) as i64;
    let g = ((color >> 8) & 0xFF) as i64;
    let b = (color & 0xFF) as i64;
    proof {
        lemma_div_pos_is_pos(r * (FX_ONE as int), FX_ONE as int);
        lemma_div_is_ordered(r * (FX_ONE as int), 255 * (FX_ONE as int), 255);
        lemma_div_pos_is_pos(g * (FX_ONE as int), FX_ONE as int);
        lemma_div_is_ordered(g * (FX_ONE as int), 255 * (FX_ONE as int), 255);
        lemma_div_pos_is_pos(b * (FX_ONE as int), FX_ONE as int);
        lemma_div_is_ordered(b * (FX_ONE as int), 255 * (FX_ONE as int), 255);
    }
    (r * FX_ONE / 255, g * FX_ONE / 255, b * FX_ONE / 255)
}

/// Pack four normalized channels into an ARGB8888 color, rounding each
/// channel to the nearest byte.  The inputs must lie in `[0, FX_ONE]`.
pub fn pack_color(r: i64, g: i64, b: i64, a: i64) -> (c: u32)
    requires
        0 <= r <= FX_ONE,
        0 <= g <= FX_ONE,
        0 <= b <= FX_ONE,
        0 <= a <= FX_ONE,
    ensures
        c == pack_rgba(r as int, g as int, b as int, a as int),
        byte_a(c) == round_to_byte(a as int),
        byte_r(c) == round_to_byte(r as int),
        byte_g(c) == round_to_byte(g as int),
        byte_b(c) == round_to_byte(b as int),
{
    proof {
        lemma_round_to_byte_bounds(a as int);
        lemma_round_to_byte_bounds(r as int);
        lemma_round_to_byte_bounds(g as int);
        lemma_round_to_byte_bounds(b as int);
    }
    let ab = ((255 * a + FX_HALF) / FX_ONE) as u32;
    let rb = ((255 * r + FX_HALF) / FX_ONE) as u32;
    let gb = ((255 * g + FX_HALF) / FX_ONE) as u32;
    let bb = ((255 * b + FX_HALF) / FX_ONE) as u32;
    proof {
        lemma_pack_bytes(ab, rb, gb, bb);
    }
    (ab << 24) | (rb << 16) | (gb << 8) | bb
}

/// Modulate a color by a fixed-point intensity factor.
///
/// Preserves the alpha channel while scaling the RGB channels.  The
/// intensity is not clamped on input: negative intensities produce black
/// channels and intensities above `FX_ONE` saturate at 255, exactly as
/// [`modulate_byte`] states.
pub fn modulate(color: u32, intensity: i64) -> (c: u32)
    requires
        -INTENSITY_LIMIT <= intensity <= INTENSITY_LIMIT,
    ensures
        c == argb(
            byte_a(color) as int,
            modulate_byte(byte_r(color) as int, intensity as int),
            modulate_byte(byte_g(color) as int, intensity as int),
            modulate_byte(byte_b(color) as int, intensity as int),
        ),
        byte_a(c) == byte_a(color),
        byte_r(c) == modulate_byte(byte_r(color) as int, intensity as int),
        byte_g(c) == modulate_byte(byte_g(color) as int, intensity as int),
        byte_b(c) == modulate_byte(byte_b(color) as int, intensity as int),
{
    proof {
        lemma_byte_bounds(color);
    }
    let a = (color >> 24) & 0xFF;
    let r = scale_byte((color >> 16) & 0xFF, intensity);
    let g = scale_byte((color >> 8) & 0xFF, intensity);
    let b = scale_byte(color & 0xFF, intensity);
    proof {
        lemma_pack_bytes(a, r, g, b);
    }
    (a << 24) | (r << 16) | (g << 8) | b
}

/// Scale one color byte by a fixed-point intensity, clamped to `[0, 255]`.
fn scale_byte(byte: u32, intensity: i64) -> (s: u32)
    requires
        byte <= 255,
        -INTENSITY_LIMIT <= intensity <= INTENSITY_LIMIT,
    ensures
        s == modulate_byte(byte as int, intensity as int),
        s <= 255,
{
    if intensity < 0 {
        0
    } else {
        proof {
            crate::fixed::lemma_mul_bound(byte as int, 255, intensity as int,
                INTENSITY_LIMIT as int);
            lemma_div_pos_is_pos(byte * intensity, FX_ONE as int);
        }
        let v = (byte as i64) * intensity / FX_ONE;
        if v > 255 {
            255
        } else {
            v as u32
        }
    }
}

/// Linearly interpolate between two colors, per channel.
///
/// `c1` and `c2` are unpacked fixed-point channel triples; `t` is the
/// interpolation factor at scale `FX_ONE` and is not clamped.
pub fn lerp_color(c1: (i64, i64, i64), c2: (i64, i64, i64), t: i64) -> (c: (i64, i64, i64))
    requires
        0 <= c1.0 <= FX_ONE,
        0 <= c1.1 <= FX_ONE,
        0 <= c1.2 <= FX_ONE,
        0 <= c2.0 <= FX_ONE,
        0 <= c2.1 <= FX_ONE,
        0 <= c2.2 <= FX_ONE,
        -LERP_LIMIT <= t <= LERP_LIMIT,
    ensures
        c.0 == lerp_fx(c1.0 as int, c2.0 as int, t as int),
        c.1 == lerp_fx(c1.1 as int, c2.1 as int, t as int),
        c.2 == lerp_fx(c1.2 as int, c2.2 as int, t as int),
{
    proof {
        crate::fixed::lemma_mul_bound(c2.0 - c1.0, FX_ONE as int, t as int, LERP_LIMIT as int);
        crate::fixed::lemma_mul_bound(c2.1 - c1.1, FX_ONE as int, t as int, LERP_LIMIT as int);
        crate::fixed::lemma_mul_bound(c2.2 - c1.2, FX_ONE as int, t as int, LERP_LIMIT as int);
    }
    let r = c1.0 + div_floor((c2.0 - c1.0) * t, FX_ONE);
    let g = c1.1 + div_floor((c2.1 - c1.1) * t, FX_ONE);
    let b = c1.2 + div_floor((c2.2 - c1.2) * t, FX_ONE);
    (r, g, b)
}

/// Packing a normalized channel to a byte and unpacking it again
/// reproduces the channel to within `FX_ONE / 255` — one part in 255, the
/// round-trip tolerance of the codec.
pub proof fn lemma_channel_round_trip(ch: int)
    requires
        0 <= ch <= FX_ONE,
    ensures
        -(FX_ONE as int) / 255 <= byte_to_fx(round_to_byte(ch)) - ch <= (FX_ONE as int) / 255,
{
    let one = FX_ONE as int;
    let rb = round_to_byte(ch);
    lemma_round_to_byte_bounds(ch);
    lemma_fundamental_div_mod(255 * ch + FX_HALF, one);
    let s = (255 * ch + FX_HALF) % one;
    assert(rb * one == 255 * ch + FX_HALF - s) by (nonlinear_arith)
        requires
            255 * ch + FX_HALF == one * rb + s,
    ;
    let d = FX_HALF - s;
    lemma_hoist_over_denominator(d, ch, 255);
    assert(byte_to_fx(rb) == (rb * one) / 255);
    assert(ch + d / 255 == (d + ch * 255) / 255);
    assert(d + ch * 255 == rb * one);
    lemma_div_is_ordered(-32767, d, 255);
    lemma_div_is_ordered(d, FX_HALF as int, 255);
}

/// The full-color statement of the round trip: every channel of
/// `unpack_color(pack_color(r, g, b, a))` is within `FX_ONE / 255` of the
/// channel that was packed.
pub proof fn lemma_pack_unpack_round_trip(r: int, g: int, b: int, a: int)
    requires
        0 <= r <= FX_ONE,
        0 <= g <= FX_ONE,
        0 <= b <= FX_ONE,
        0 <= a <= FX_ONE,
    ensures
        -(FX_ONE as int) / 255 <= byte_to_fx(round_to_byte(r)) - r <= (FX_ONE as int) / 255,
        -(FX_ONE as int) / 255 <= byte_to_fx(round_to_byte(g)) - g <= (FX_ONE as int) / 255,
        -(FX_ONE as int) / 255 <= byte_to_fx(round_to_byte(b)) - b <= (FX_ONE as int) / 255,
        -(FX_ONE as int) / 255 <= byte_to_fx(round_to_byte(a)) - a <= (FX_ONE as int) / 255,
{
    lemma_channel_round_trip(r);
    lemma_channel_round_trip(g);
    lemma_channel_round_trip(b);
    lemma_channel_round_trip(a);
}

} // verus!
