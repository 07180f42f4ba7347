//! Per-pixel shaders.
//!
//! A rasterizer decides *which* pixels a triangle covers; a
//! [`PixelShader`] decides what color each covered pixel gets, from the
//! pixel's barycentric weights.  The weights arrive in fixed-point at
//! scale [`crate::fixed::FX_ONE`], each nonnegative, summing to at most
//! `FX_ONE`.
//!
//! The closed set of variants: flat color, Gouraud (vertex-color
//! interpolation), affine texture, affine texture with lighting
//! modulation, perspective-correct texture, and perspective-correct
//! texture with lighting modulation.

use vstd::prelude::*;

verus! {

use crate::colors::byte_b;
use crate::colors::byte_g;
use crate::colors::byte_r;
use crate::colors::byte_to_fx;
use crate::colors::pack_color;
use crate::colors::pack_rgba;
use crate::colors::unpack_color;
use crate::fixed::div_floor;
use crate::fixed::div_floor_wide;
use crate::fixed::lemma_mul_bound;
use crate::fixed::FX_ONE;
use crate::texture::Texture;
use crate::texture::UV_LIMIT;
use vstd::arithmetic::div_mod::lemma_div_is_ordered;
use vstd::arithmetic::div_mod::lemma_div_multiples_vanish;
use vstd::arithmetic::div_mod::lemma_div_pos_is_pos;

/// Magnitude bound on the per-vertex texture coordinates a shader may
/// close over (256 texture repeats in fixed point).
pub const UVS_LIMIT: i64 = 0x100_0000;

/// Bound on a stored `u/w` or `v/w` value.
pub const UVW_LIMIT: i64 = 0x100_0000_0000;

/// Bound on a stored `1/w` value (largest when `w` is smallest, 1).
pub const INVW_LIMIT: i64 = 0x1_0000_0000;

/// The barycentric combination `l0*a0 + l1*a1 + l2*a2`, floored back to
/// scale `FX_ONE`.
pub open spec fn weighted(a0: int, a1: int, a2: int, l0: int, l1: int, l2: int) -> int {
    (l0 * a0 + l1 * a1 + l2 * a2) / (FX_ONE as int)
}

/// The weights a shader accepts: nonnegative, summing to at most one.
pub open spec fn valid_lambdas(l0: int, l1: int, l2: int) -> bool {
    0 <= l0 && 0 <= l1 && 0 <= l2 && l0 + l1 + l2 <= FX_ONE
}

/// A barycentric combination of values from a range stays in that range
/// (for ranges containing zero, since the weights may sum to less than
/// one).
pub proof fn lemma_weighted_bounds(
    a0: int,
    a1: int,
    a2: int,
    l0: int,
    l1: int,
    l2: int,
    lo: int,
    hi: int,
)
    requires
        valid_lambdas(l0, l1, l2),
        lo <= a0 <= hi,
        lo <= a1 <= hi,
        lo <= a2 <= hi,
        lo <= 0 <= hi,
    ensures
        lo <= weighted(a0, a1, a2, l0, l1, l2) <= hi,
{
    let one = FX_ONE as int;
    let s = l0 * a0 + l1 * a1 + l2 * a2;
    assert(l0 * lo <= l0 * a0 <= l0 * hi) by (nonlinear_arith)
        requires
            0 <= l0,
            lo <= a0 <= hi,
    ;
    assert(l1 * lo <= l1 * a1 <= l1 * hi) by (nonlinear_arith)
        requires
            0 <= l1,
            lo <= a1 <= hi,
    ;
    assert(l2 * lo <= l2 * a2 <= l2 * hi) by (nonlinear_arith)
        requires
            0 <= l2,
            lo <= a2 <= hi,
    ;
    assert((l0 + l1 + l2) * lo == l0 * lo + l1 * lo + l2 * lo && (l0 + l1 + l2) * hi == l0 * hi
        + l1 * hi + l2 * hi) by (nonlinear_arith);
    assert(one * lo <= (l0 + l1 + l2) * lo && (l0 + l1 + l2) * hi <= one * hi)
        by (nonlinear_arith)
        requires
            0 <= l0 + l1 + l2 <= one,
            lo <= 0 <= hi,
    ;
    lemma_div_is_ordered(one * lo, s, one);
    lemma_div_is_ordered(s, one * hi, one);
    lemma_div_multiples_vanish(lo, one);
    lemma_div_multiples_vanish(hi, one);
}

/// Interpolate three values from `[0, FX_ONE]` by the given weights.
fn interp_unit(a0: i64, a1: i64, a2: i64, l0: i64, l1: i64, l2: i64) -> (r: i64)
    requires
        valid_lambdas(l0 as int, l1 as int, l2 as int),
        0 <= a0 <= FX_ONE,
        0 <= a1 <= FX_ONE,
        0 <= a2 <= FX_ONE,
    ensures
        r == weighted(a0 as int, a1 as int, a2 as int, l0 as int, l1 as int, l2 as int),
        0 <= r <= FX_ONE,
{
    proof {
        lemma_mul_bound(l0 as int, FX_ONE as int, a0 as int, FX_ONE as int);
        lemma_mul_bound(l1 as int, FX_ONE as int, a1 as int, FX_ONE as int);
        lemma_mul_bound(l2 as int, FX_ONE as int, a2 as int, FX_ONE as int);
        lemma_weighted_bounds(a0 as int, a1 as int, a2 as int, l0 as int, l1 as int, l2 as int,
            0, FX_ONE as int);
        lemma_div_pos_is_pos(l0 * a0 + l1 * a1 + l2 * a2, FX_ONE as int);
    }
    (l0 * a0 + l1 * a1 + l2 * a2) / FX_ONE
}

/// Interpolate three signed texture coordinates by the given weights.
fn interp_uv(a0: i64, a1: i64, a2: i64, l0: i64, l1: i64, l2: i64) -> (r: i64)
    requires
        valid_lambdas(l0 as int, l1 as int, l2 as int),
        -UVS_LIMIT <= a0 <= UVS_LIMIT,
        -UVS_LIMIT <= a1 <= UVS_LIMIT,
        -UVS_LIMIT <= a2 <= UVS_LIMIT,
    ensures
        r == weighted(a0 as int, a1 as int, a2 as int, l0 as int, l1 as int, l2 as int),
        -UVS_LIMIT <= r <= UVS_LIMIT,
{
    proof {
        lemma_mul_bound(l0 as int, FX_ONE as int, a0 as int, UVS_LIMIT as int);
        lemma_mul_bound(l1 as int, FX_ONE as int, a1 as int, UVS_LIMIT as int);
        lemma_mul_bound(l2 as int, FX_ONE as int, a2 as int, UVS_LIMIT as int);
        lemma_weighted_bounds(a0 as int, a1 as int, a2 as int, l0 as int, l1 as int, l2 as int,
            -UVS_LIMIT as int, UVS_LIMIT as int);
    }
    div_floor(l0 * a0 + l1 * a1 + l2 * a2, FX_ONE)
}

/// A texture coordinate clamped into the range [`Texture::sample`]
/// accepts; only pathologically distant coordinates are affected, and the
/// texture wraps in any case.
pub open spec fn clamp_uv(x: int) -> int {
    if x < -UV_LIMIT {
        -UV_LIMIT as int
    } else if x > UV_LIMIT {
        UV_LIMIT as int
    } else {
        x
    }
}

/// The perspective-correct recovery of a texture coordinate from the
/// interpolated `attr/w` numerator and `1/w` denominator: their quotient,
/// floored at scale `FX_ONE`, clamped; a vanishing denominator falls back
/// to zero instead of dividing by it.
pub open spec fn persp_recover(nw: int, niw: int) -> int {
    if niw <= 0 {
        0
    } else {
        clamp_uv(nw * (FX_ONE as int) / niw)
    }
}

/// Recover a perspective-correct texture coordinate.
fn persp_coord(nw: i64, niw: i64) -> (r: i64)
    requires
        -0x4000_0000_0000_0000 <= nw <= 0x4000_0000_0000_0000,
        0 <= niw <= 0x4000_0000_0000_0000,
    ensures
        r == persp_recover(nw as int, niw as int),
        -UV_LIMIT <= r <= UV_LIMIT,
{
    if niw <= 0 {
        0
    } else {
        proof {
            lemma_mul_bound(nw as int, 0x4000_0000_0000_0000, FX_ONE as int, FX_ONE as int);
        }
        let q = div_floor_wide((nw as i128) * (FX_ONE as i128), niw as i128);
        if q < -(UV_LIMIT as i128) {
            -UV_LIMIT
        } else if q > UV_LIMIT as i128 {
            UV_LIMIT
        } else {
            q as i64
        }
    }
}

/// A per-pixel shading computation: given the barycentric weights of a
/// covered pixel, produce its final packed color.  `shade_spec` is the
/// mathematical statement of the variant's formula; `shade` computes it.
pub trait PixelShader: Sized {
    /// The shader's internal consistency: what its constructor
    /// establishes and `shade` relies on.
    spec fn wf(&self) -> bool;

    /// The color this shader assigns to a pixel with the given weights.
    spec fn shade_spec(&self, l0: int, l1: int, l2: int) -> u32;

    /// Compute the color for a pixel from its barycentric weights.
    fn shade(&self, l0: i64, l1: i64, l2: i64) -> (c: u32)
        requires
            self.wf(),
            valid_lambdas(l0 as int, l1 as int, l2 as int),
        ensures
            c == self.shade_spec(l0 as int, l1 as int, l2 as int),
    ;
}

/// Flat shader: one constant color for every pixel.
pub struct FlatShader {
    color: u32,
}

impl FlatShader {
    /// The constant color.
    pub closed spec fn spec_color(&self) -> u32 {
        self.color
    }

    /// Create a flat shader from its constant color.
    pub fn new(color: u32) -> (s: FlatShader)
        ensures
            s.wf(),
            s.spec_color() == color,
    {
        FlatShader { color }
    }
}

impl PixelShader for FlatShader {
    open spec fn wf(&self) -> bool {
        true
    }

    open spec fn shade_spec(&self, l0: int, l1: int, l2: int) -> u32 {
        self.spec_color()
    }

    fn shade(&self, l0: i64, l1: i64, l2: i64) -> (c: u32) {
        self.color
    }
}

/// The three fixed-point RGB channels a packed vertex color unpacks to.
pub open spec fn unpacked_rgb(c: u32) -> (int, int, int) {
    (byte_to_fx(byte_r(c) as int), byte_to_fx(byte_g(c) as int), byte_to_fx(byte_b(c) as int))
}

/// Gouraud shader: the three unpacked vertex colors combined by the
/// barycentric weights, repacked at full alpha.
pub struct GouraudShader {
    colors: [(i64, i64, i64); 3],
}

impl GouraudShader {
    /// The unpacked fixed-point color of vertex `k`.
    pub closed spec fn spec_color(&self, k: int) -> (i64, i64, i64) {
        self.colors[k]
    }

    /// Create a Gouraud shader from the three packed vertex colors.
    pub fn new(vertex_colors: [u32; 3]) -> (s: GouraudShader)
        ensures
            s.wf(),
            forall|k: int|
                0 <= k < 3 ==> {
                    let (r, g, b) = unpacked_rgb(vertex_colors[k]);
                    #[trigger] s.spec_color(k) == (r as i64, g as i64, b as i64)
                },
    {
        let c0 = unpack_color(vertex_colors[0]);
        let c1 = unpack_color(vertex_colors[1]);
        let c2 = unpack_color(vertex_colors[2]);
        GouraudShader { colors: [c0, c1, c2] }
    }
}

impl PixelShader for GouraudShader {
    open spec fn wf(&self) -> bool {
        forall|k: int|
            0 <= k < 3 ==> {
                let (r, g, b) = #[trigger] self.spec_color(k);
                0 <= r <= FX_ONE && 0 <= g <= FX_ONE && 0 <= b <= FX_ONE
            }
    }

    open spec fn shade_spec(&self, l0: int, l1: int, l2: int) -> u32 {
        let r = weighted(
            self.spec_color(0).0 as int,
            self.spec_color(1).0 as int,
            self.spec_color(2).0 as int,
            l0,
            l1,
            l2,
        );
        let g = weighted(
            self.spec_color(0).1 as int,
            self.spec_color(1).1 as int,
            self.spec_color(2).1 as int,
            l0,
            l1,
            l2,
        );
        let b = weighted(
            self.spec_color(0).2 as int,
            self.spec_color(1).2 as int,
            self.spec_color(2).2 as int,
            l0,
            l1,
            l2,
        );
        pack_rgba(r, g, b, FX_ONE as int)
    }

    fn shade(&self, l0: i64, l1: i64, l2: i64) -> (c: u32) {
        proof {
            assert(self.spec_color(0) == self.colors[0]);
            assert(self.spec_color(1) == self.colors[1]);
            assert(self.spec_color(2) == self.colors[2]);
        }
        let r = interp_unit(self.colors[0].0, self.colors[1].0, self.colors[2].0, l0, l1, l2);
        let g = interp_unit(self.colors[0].1, self.colors[1].1, self.colors[2].1, l0, l1, l2);
        let b = interp_unit(self.colors[0].2, self.colors[1].2, self.colors[2].2, l0, l1, l2);
        pack_color(r, g, b, FX_ONE)
    }
}

/// Texture shader: the vertex texture coordinates combined affinely by
/// the barycentric weights, then sampled.  Affine interpolation is not
/// perspective-correct; it is the cheap approximation the perspective
/// variants exist to improve on.
pub struct TextureShader<'a> {
    texture: &'a Texture,
    uvs: [crate::math::vec2::Vec2; 3],
}

impl<'a> TextureShader<'a> {
    /// The texture sampled per pixel.
    pub closed spec fn spec_texture(&self) -> Texture {
        *self.texture
    }

    /// The texture coordinates of vertex `k`.
    pub closed spec fn spec_uv(&self, k: int) -> crate::math::vec2::Vec2 {
        self.uvs[k]
    }

    /// Create a texture shader from a texture and the three per-vertex
    /// texture coordinates.
    pub fn new(texture: &'a Texture, uvs: [crate::math::vec2::Vec2; 3]) -> (s: TextureShader<'a>)
        requires
            texture.wf(),
            forall|k: int| 0 <= k < 3 ==> (#[trigger] uvs[k]).bounded(UVS_LIMIT),
        ensures
            s.wf(),
            s.spec_texture() == *texture,
            forall|k: int| 0 <= k < 3 ==> #[trigger] s.spec_uv(k) == uvs[k],
    {
        TextureShader { texture, uvs }
    }
}

impl<'a> PixelShader for TextureShader<'a> {
    open spec fn wf(&self) -> bool {
        &&& self.spec_texture().wf()
        &&& forall|k: int| 0 <= k < 3 ==> (#[trigger] self.spec_uv(k)).bounded(UVS_LIMIT)
    }

    open spec fn shade_spec(&self, l0: int, l1: int, l2: int) -> u32 {
        let u = weighted(
            self.spec_uv(0).x as int,
            self.spec_uv(1).x as int,
            self.spec_uv(2).x as int,
            l0,
            l1,
            l2,
        );
        let v = weighted(
            self.spec_uv(0).y as int,
            self.spec_uv(1).y as int,
            self.spec_uv(2).y as int,
            l0,
            l1,
            l2,
        );
        self.spec_texture().sample_spec(u, v)
    }

    fn shade(&self, l0: i64, l1: i64, l2: i64) -> (c: u32) {
        proof {
            assert(self.spec_uv(0) == self.uvs[0]);
            assert(self.spec_uv(1) == self.uvs[1]);
            assert(self.spec_uv(2) == self.uvs[2]);
        }
        let u = interp_uv(self.uvs[0].x, self.uvs[1].x, self.uvs[2].x, l0, l1, l2);
        let v = interp_uv(self.uvs[0].y, self.uvs[1].y, self.uvs[2].y, l0, l1, l2);
        self.texture.sample(u, v)
    }
}

/// One sampled channel modulated by one lighting channel: both are
/// fixed-point values in `[0, FX_ONE]`, and so is their product.
pub open spec fn modulated_fx(tex: int, light: int) -> int {
    tex * light / (FX_ONE as int)
}

/// Multiply a sampled channel by a lighting channel, staying in `[0, FX_ONE]`.
fn modulate_fx(tex: i64, light: i64) -> (r: i64)
    requires
        0 <= tex <= FX_ONE,
        0 <= light <= FX_ONE,
    ensures
        r == modulated_fx(tex as int, light as int),
        0 <= r <= FX_ONE,
{
    proof {
        lemma_mul_bound(tex as int, FX_ONE as int, light as int, FX_ONE as int);
        lemma_div_pos_is_pos(tex as int * light as int, FX_ONE as int);
        lemma_div_is_ordered(tex as int * light as int, FX_ONE as int * FX_ONE as int,
            FX_ONE as int);
        lemma_div_multiples_vanish(FX_ONE as int, FX_ONE as int);
    }
    tex * light / FX_ONE
}

/// Modulated texture shader: an affine texture sample whose RGB channels
/// are multiplied by Gouraud-interpolated lighting.
pub struct TextureModulateShader<'a> {
    texture: &'a Texture,
    uvs: [crate::math::vec2::Vec2; 3],
    colors: [(i64, i64, i64); 3],
}

impl<'a> TextureModulateShader<'a> {
    /// The texture sampled per pixel.
    pub closed spec fn spec_texture(&self) -> Texture {
        *self.texture
    }

    /// The texture coordinates of vertex `k`.
    pub closed spec fn spec_uv(&self, k: int) -> crate::math::vec2::Vec2 {
        self.uvs[k]
    }

    /// The unpacked lighting color of vertex `k`.
    pub closed spec fn spec_color(&self, k: int) -> (i64, i64, i64) {
        self.colors[k]
    }

    /// Create a modulated texture shader from a texture, the per-vertex
    /// texture coordinates and the packed per-vertex lighting colors.
    pub fn new(
        texture: &'a Texture,
        uvs: [crate::math::vec2::Vec2; 3],
        vertex_colors: [u32; 3],
    ) -> (s: TextureModulateShader<'a>)
        requires
            texture.wf(),
            forall|k: int| 0 <= k < 3 ==> (#[trigger] uvs[k]).bounded(UVS_LIMIT),
        ensures
            s.wf(),
            s.spec_texture() == *texture,
            forall|k: int| 0 <= k < 3 ==> #[trigger] s.spec_uv(k) == uvs[k],
            forall|k: int|
                0 <= k < 3 ==> {
                    let (r, g, b) = unpacked_rgb(vertex_colors[k]);
                    #[trigger] s.spec_color(k) == (r as i64, g as i64, b as i64)
                },
    {
        let c0 = unpack_color(vertex_colors[0]);
        let c1 = unpack_color(vertex_colors[1]);
        let c2 = unpack_color(vertex_colors[2]);
        TextureModulateShader { texture, uvs, colors: [c0, c1, c2] }
    }

    /// The interpolated lighting channels at the given weights.
    pub open spec fn lighting_spec(&self, l0: int, l1: int, l2: int) -> (int, int, int) {
        (
            weighted(
                self.spec_color(0).0 as int,
                self.spec_color(1).0 as int,
                self.spec_color(2).0 as int,
                l0,
                l1,
                l2,
            ),
            weighted(
                self.spec_color(0).1 as int,
                self.spec_color(1).1 as int,
                self.spec_color(2).1 as int,
                l0,
                l1,
                l2,
            ),
            weighted(
                self.spec_color(0).2 as int,
                self.spec_color(1).2 as int,
                self.spec_color(2).2 as int,
                l0,
                l1,
                l2,
            ),
        )
    }
}

impl<'a> PixelShader for TextureModulateShader<'a> {
    open spec fn wf(&self) -> bool {
        &&& self.spec_texture().wf()
        &&& forall|k: int| 0 <= k < 3 ==> (#[trigger] self.spec_uv(k)).bounded(UVS_LIMIT)
        &&& forall|k: int|
            0 <= k < 3 ==> {
                let (r, g, b) = #[trigger] self.spec_color(k);
                0 <= r <= FX_ONE && 0 <= g <= FX_ONE && 0 <= b <= FX_ONE
            }
    }

    open spec fn shade_spec(&self, l0: int, l1: int, l2: int) -> u32 {
        let u = weighted(
            self.spec_uv(0).x as int,
            self.spec_uv(1).x as int,
            self.spec_uv(2).x as int,
            l0,
            l1,
            l2,
        );
        let v = weighted(
            self.spec_uv(0).y as int,
            self.spec_uv(1).y as int,
            self.spec_uv(2).y as int,
            l0,
            l1,
            l2,
        );
        let tex = self.spec_texture().sample_spec(u, v);
        let (lr, lg, lb) = self.lighting_spec(l0, l1, l2);
        pack_rgba(
            modulated_fx(byte_to_fx(byte_r(tex) as int), lr),
            modulated_fx(byte_to_fx(byte_g(tex) as int), lg),
            modulated_fx(byte_to_fx(byte_b(tex) as int), lb),
            FX_ONE as int,
        )
    }

    fn shade(&self, l0: i64, l1: i64, l2: i64) -> (c: u32) {
        proof {
            assert(self.spec_uv(0) == self.uvs[0]);
            assert(self.spec_uv(1) == self.uvs[1]);
            assert(self.spec_uv(2) == self.uvs[2]);
            assert(self.spec_color(0) == self.colors[0]);
            assert(self.spec_color(1) == self.colors[1]);
            assert(self.spec_color(2) == self.colors[2]);
        }
        let u = interp_uv(self.uvs[0].x, self.uvs[1].x, self.uvs[2].x, l0, l1, l2);
        let v = interp_uv(self.uvs[0].y, self.uvs[1].y, self.uvs[2].y, l0, l1, l2);
        let tex = self.texture.sample(u, v);
        let lr = interp_unit(self.colors[0].0, self.colors[1].0, self.colors[2].0, l0, l1, l2);
        let lg = interp_unit(self.colors[0].1, self.colors[1].1, self.colors[2].1, l0, l1, l2);
        let lb = interp_unit(self.colors[0].2, self.colors[1].2, self.colors[2].2, l0, l1, l2);
        let (tr, tg, tb) = unpack_color(tex);
        pack_color(modulate_fx(tr, lr), modulate_fx(tg, lg), modulate_fx(tb, lb), FX_ONE)
    }
}

/// The raw barycentric combination `l0*a0 + l1*a1 + l2*a2`, kept at the
/// enlarged scale (no division); the numerators and denominator of the
/// perspective-correct recovery are built this way.
fn interp_raw(a0: i64, a1: i64, a2: i64, l0: i64, l1: i64, l2: i64) -> (r: i64)
    requires
        valid_lambdas(l0 as int, l1 as int, l2 as int),
        -UVW_LIMIT <= a0 <= UVW_LIMIT,
        -UVW_LIMIT <= a1 <= UVW_LIMIT,
        -UVW_LIMIT <= a2 <= UVW_LIMIT,
    ensures
        r == l0 * a0 + l1 * a1 + l2 * a2,
        -0x4000_0000_0000_0000 <= r <= 0x4000_0000_0000_0000,
        a0 >= 0 && a1 >= 0 && a2 >= 0 ==> r >= 0,
{
    proof {
        lemma_mul_bound(l0 as int, FX_ONE as int, a0 as int, UVW_LIMIT as int);
        lemma_mul_bound(l1 as int, FX_ONE as int, a1 as int, UVW_LIMIT as int);
        lemma_mul_bound(l2 as int, FX_ONE as int, a2 as int, UVW_LIMIT as int);
        if a0 >= 0 && a1 >= 0 && a2 >= 0 {
            assert(l0 * a0 >= 0 && l1 * a1 >= 0 && l2 * a2 >= 0) by (nonlinear_arith)
                requires
                    l0 >= 0 && l1 >= 0 && l2 >= 0,
                    a0 >= 0 && a1 >= 0 && a2 >= 0,
            ;
        }
    }
    l0 * a0 + l1 * a1 + l2 * a2
}

/// Divide a texture coordinate by a perspective divisor, floored at
/// scale `FX_ONE`.
fn over_w(a: i64, w: i64) -> (q: i64)
    requires
        -UVS_LIMIT <= a <= UVS_LIMIT,
        1 <= w <= crate::triangle::W_LIMIT,
    ensures
        q == a * (FX_ONE as int) / (w as int),
        -UVW_LIMIT <= q <= UVW_LIMIT,
{
    proof {
        lemma_mul_bound(a as int, UVS_LIMIT as int, FX_ONE as int, FX_ONE as int);
    }
    let q = div_floor(a * FX_ONE, w);
    proof {
        assert(-UVW_LIMIT <= q <= UVW_LIMIT) by (nonlinear_arith)
            requires
                w * q <= a * (FX_ONE as int) < w * (q as int + 1),
                1 <= w,
                -UVW_LIMIT <= a * (FX_ONE as int) <= UVW_LIMIT,
        {}
    }
    q
}

/// The reciprocal of a perspective divisor at scale `FX_ONE`:
/// `FX_ONE * FX_ONE / w`, floored.
fn inv_of(w: i64) -> (q: i64)
    requires
        1 <= w <= crate::triangle::W_LIMIT,
    ensures
        q == (FX_ONE as int) * (FX_ONE as int) / (w as int),
        0 <= q <= INVW_LIMIT,
{
    proof {
        lemma_div_pos_is_pos((FX_ONE as int) * (FX_ONE as int), w as int);
        vstd::arithmetic::div_mod::lemma_div_nonincreasing((FX_ONE as int) * (FX_ONE as int),
            w as int);
    }
    FX_ONE * FX_ONE / w
}

/// Perspective-correct texture shader: `u/w`, `v/w` and `1/w` are
/// precomputed per vertex, interpolated linearly in screen space, and the
/// true texture coordinate is recovered by division — the mathematically
/// correct interpolation that [`TextureShader`] approximates.
pub struct PerspectiveCorrectTextureShader<'a> {
    texture: &'a Texture,
    u_over_w: [i64; 3],
    v_over_w: [i64; 3],
    inv_w: [i64; 3],
}

impl<'a> PerspectiveCorrectTextureShader<'a> {
    /// The texture sampled per pixel.
    pub closed spec fn spec_texture(&self) -> Texture {
        *self.texture
    }

    /// The stored `u/w` of vertex `k`.
    pub closed spec fn spec_uw(&self, k: int) -> i64 {
        self.u_over_w[k]
    }

    /// The stored `v/w` of vertex `k`.
    pub closed spec fn spec_vw(&self, k: int) -> i64 {
        self.v_over_w[k]
    }

    /// The stored `1/w` of vertex `k`.
    pub closed spec fn spec_iw(&self, k: int) -> i64 {
        self.inv_w[k]
    }

    /// Create a perspective-correct texture shader from a texture, the
    /// per-vertex texture coordinates and the per-vertex perspective
    /// divisors (at scale `FX_ONE`).
    pub fn new(texture: &'a Texture, uvs: [crate::math::vec2::Vec2; 3], ws: [i64; 3]) -> (s:
        PerspectiveCorrectTextureShader<'a>)
        requires
            texture.wf(),
            forall|k: int| 0 <= k < 3 ==> (#[trigger] uvs[k]).bounded(UVS_LIMIT),
            forall|k: int| 0 <= k < 3 ==> 1 <= #[trigger] ws[k] <= crate::triangle::W_LIMIT,
        ensures
            s.wf(),
            s.spec_texture() == *texture,
            forall|k: int|
                0 <= k < 3 ==> #[trigger] s.spec_uw(k) == uvs[k].x * (FX_ONE as int) / (
                ws[k] as int),
            forall|k: int|
                0 <= k < 3 ==> #[trigger] s.spec_vw(k) == uvs[k].y * (FX_ONE as int) / (
                ws[k] as int),
            forall|k: int|
                0 <= k < 3 ==> #[trigger] s.spec_iw(k) == (FX_ONE as int) * (FX_ONE as int) / (
                ws[k] as int),
    {
        let u_over_w = [
            over_w(uvs[0].x, ws[0]),
            over_w(uvs[1].x, ws[1]),
            over_w(uvs[2].x, ws[2]),
        ];
        let v_over_w = [
            over_w(uvs[0].y, ws[0]),
            over_w(uvs[1].y, ws[1]),
            over_w(uvs[2].y, ws[2]),
        ];
        let inv_w = [inv_of(ws[0]), inv_of(ws[1]), inv_of(ws[2])];
        PerspectiveCorrectTextureShader { texture, u_over_w, v_over_w, inv_w }
    }

    /// The recovered texture coordinates at the given weights.
    pub open spec fn uv_spec(&self, l0: int, l1: int, l2: int) -> (int, int) {
        let nu = l0 * self.spec_uw(0) + l1 * self.spec_uw(1) + l2 * self.spec_uw(2);
        let nv = l0 * self.spec_vw(0) + l1 * self.spec_vw(1) + l2 * self.spec_vw(2);
        let niw = l0 * self.spec_iw(0) + l1 * self.spec_iw(1) + l2 * self.spec_iw(2);
        (persp_recover(nu, niw), persp_recover(nv, niw))
    }
}

impl<'a> PixelShader for PerspectiveCorrectTextureShader<'a> {
    open spec fn wf(&self) -> bool {
        &&& self.spec_texture().wf()
        &&& forall|k: int| 0 <= k < 3 ==> -UVW_LIMIT <= #[trigger] self.spec_uw(k) <= UVW_LIMIT
        &&& forall|k: int| 0 <= k < 3 ==> -UVW_LIMIT <= #[trigger] self.spec_vw(k) <= UVW_LIMIT
        &&& forall|k: int| 0 <= k < 3 ==> 0 <= #[trigger] self.spec_iw(k) <= INVW_LIMIT
    }

    open spec fn shade_spec(&self, l0: int, l1: int, l2: int) -> u32 {
        let (u, v) = self.uv_spec(l0, l1, l2);
        self.spec_texture().sample_spec(u, v)
    }

    fn shade(&self, l0: i64, l1: i64, l2: i64) -> (c: u32) {
        proof {
            assert(self.spec_uw(0) == self.u_over_w[0]);
            assert(self.spec_uw(1) == self.u_over_w[1]);
            assert(self.spec_uw(2) == self.u_over_w[2]);
            assert(self.spec_vw(0) == self.v_over_w[0]);
            assert(self.spec_vw(1) == self.v_over_w[1]);
            assert(self.spec_vw(2) == self.v_over_w[2]);
            assert(self.spec_iw(0) == self.inv_w[0]);
            assert(self.spec_iw(1) == self.inv_w[1]);
            assert(self.spec_iw(2) == self.inv_w[2]);
        }
        let nu = interp_raw(self.u_over_w[0], self.u_over_w[1], self.u_over_w[2], l0, l1, l2);
        let nv = interp_raw(self.v_over_w[0], self.v_over_w[1], self.v_over_w[2], l0, l1, l2);
        let niw = interp_raw(self.inv_w[0], self.inv_w[1], self.inv_w[2], l0, l1, l2);
        let u = persp_coord(nu, niw);
        let v = persp_coord(nv, niw);
        self.texture.sample(u, v)
    }
}

/// Perspective-correct texture shader with lighting modulation: the
/// texture coordinate is recovered perspective-correctly, while the
/// lighting stays affine — deliberately, as the cheaper interpolation is
/// visually acceptable for lighting.
pub struct PerspectiveCorrectTextureModulateShader<'a> {
    texture: &'a Texture,
    u_over_w: [i64; 3],
    v_over_w: [i64; 3],
    inv_w: [i64; 3],
    colors: [(i64, i64, i64); 3],
}

impl<'a> PerspectiveCorrectTextureModulateShader<'a> {
    /// The texture sampled per pixel.
    pub closed spec fn spec_texture(&self) -> Texture {
        *self.texture
    }

    /// The stored `u/w` of vertex `k`.
    pub closed spec fn spec_uw(&self, k: int) -> i64 {
        self.u_over_w[k]
    }

    /// The stored `v/w` of vertex `k`.
    pub closed spec fn spec_vw(&self, k: int) -> i64 {
        self.v_over_w[k]
    }

    /// The stored `1/w` of vertex `k`.
    pub closed spec fn spec_iw(&self, k: int) -> i64 {
        self.inv_w[k]
    }

    /// The unpacked lighting color of vertex `k`.
    pub closed spec fn spec_color(&self, k: int) -> (i64, i64, i64) {
        self.colors[k]
    }

    /// Create the shader from a texture, the per-vertex texture
    /// coordinates, the per-vertex perspective divisors (at scale
    /// `FX_ONE`) and the packed per-vertex lighting colors.
    pub fn new(
        texture: &'a Texture,
        uvs: [crate::math::vec2::Vec2; 3],
        ws: [i64; 3],
        vertex_colors: [u32; 3],
    ) -> (s: PerspectiveCorrectTextureModulateShader<'a>)
        requires
            texture.wf(),
            forall|k: int| 0 <= k < 3 ==> (#[trigger] uvs[k]).bounded(UVS_LIMIT),
            forall|k: int| 0 <= k < 3 ==> 1 <= #[trigger] ws[k] <= crate::triangle::W_LIMIT,
        ensures
            s.wf(),
            s.spec_texture() == *texture,
            forall|k: int|
                0 <= k < 3 ==> #[trigger] s.spec_uw(k) == uvs[k].x * (FX_ONE as int) / (
                ws[k] as int),
            forall|k: int|
                0 <= k < 3 ==> #[trigger] s.spec_vw(k) == uvs[k].y * (FX_ONE as int) / (
                ws[k] as int),
            forall|k: int|
                0 <= k < 3 ==> #[trigger] s.spec_iw(k) == (FX_ONE as int) * (FX_ONE as int) / (
                ws[k] as int),
            forall|k: int|
                0 <= k < 3 ==> {
                    let (r, g, b) = unpacked_rgb(vertex_colors[k]);
                    #[trigger] s.spec_color(k) == (r as i64, g as i64, b as i64)
                },
    {
        let u_over_w = [
            over_w(uvs[0].x, ws[0]),
            over_w(uvs[1].x, ws[1]),
            over_w(uvs[2].x, ws[2]),
        ];
        let v_over_w = [
            over_w(uvs[0].y, ws[0]),
            over_w(uvs[1].y, ws[1]),
            over_w(uvs[2].y, ws[2]),
        ];
        let inv_w = [inv_of(ws[0]), inv_of(ws[1]), inv_of(ws[2])];
        let c0 = unpack_color(vertex_colors[0]);
        let c1 = unpack_color(vertex_colors[1]);
        let c2 = unpack_color(vertex_colors[2]);
        PerspectiveCorrectTextureModulateShader {
            texture,
            u_over_w,
            v_over_w,
            inv_w,
            colors: [c0, c1, c2],
        }
    }

    /// The recovered texture coordinates at the given weights.
    pub open spec fn uv_spec(&self, l0: int, l1: int, l2: int) -> (int, int) {
        let nu = l0 * self.spec_uw(0) + l1 * self.spec_uw(1) + l2 * self.spec_uw(2);
        let nv = l0 * self.spec_vw(0) + l1 * self.spec_vw(1) + l2 * self.spec_vw(2);
        let niw = l0 * self.spec_iw(0) + l1 * self.spec_iw(1) + l2 * self.spec_iw(2);
        (persp_recover(nu, niw), persp_recover(nv, niw))
    }

    /// The affine-interpolated lighting channels at the given weights.
    pub open spec fn lighting_spec(&self, l0: int, l1: int, l2: int) -> (int, int, int) {
        (
            weighted(
                self.spec_color(0).0 as int,
                self.spec_color(1).0 as int,
                self.spec_color(2).0 as int,
                l0,
                l1,
                l2,
            ),
            weighted(
                self.spec_color(0).1 as int,
                self.spec_color(1).1 as int,
                self.spec_color(2).1 as int,
                l0,
                l1,
                l2,
            ),
            weighted(
                self.spec_color(0).2 as int,
                self.spec_color(1).2 as int,
                self.spec_color(2).2 as int,
                l0,
                l1,
                l2,
            ),
        )
    }
}

impl<'a> PixelShader for PerspectiveCorrectTextureModulateShader<'a> {
    open spec fn wf(&self) -> bool {
        &&& self.spec_texture().wf()
        &&& forall|k: int| 0 <= k < 3 ==> -UVW_LIMIT <= #[trigger] self.spec_uw(k) <= UVW_LIMIT
        &&& forall|k: int| 0 <= k < 3 ==> -UVW_LIMIT <= #[trigger] self.spec_vw(k) <= UVW_LIMIT
        &&& forall|k: int| 0 <= k < 3 ==> 0 <= #[trigger] self.spec_iw(k) <= INVW_LIMIT
        &&& forall|k: int|
            0 <= k < 3 ==> {
                let (r, g, b) = #[trigger] self.spec_color(k);
                0 <= r <= FX_ONE && 0 <= g <= FX_ONE && 0 <= b <= FX_ONE
            }
    }

    open spec fn shade_spec(&self, l0: int, l1: int, l2: int) -> u32 {
        let (u, v) = self.uv_spec(l0, l1, l2);
        let tex = self.spec_texture().sample_spec(u, v);
        let (lr, lg, lb) = self.lighting_spec(l0, l1, l2);
        pack_rgba(
            modulated_fx(byte_to_fx(byte_r(tex) as int), lr),
            modulated_fx(byte_to_fx(byte_g(tex) as int), lg),
            modulated_fx(byte_to_fx(byte_b(tex) as int), lb),
            FX_ONE as int,
        )
    }

    fn shade(&self, l0: i64, l1: i64, l2: i64) -> (c: u32) {
        proof {
            assert(self.spec_uw(0) == self.u_over_w[0]);
            assert(self.spec_uw(1) == self.u_over_w[1]);
            assert(self.spec_uw(2) == self.u_over_w[2]);
            assert(self.spec_vw(0) == self.v_over_w[0]);
            assert(self.spec_vw(1) == self.v_over_w[1]);
            assert(self.spec_vw(2) == self.v_over_w[2]);
            assert(self.spec_iw(0) == self.inv_w[0]);
            assert(self.spec_iw(1) == self.inv_w[1]);
            assert(self.spec_iw(2) == self.inv_w[2]);
            assert(self.spec_color(0) == self.colors[0]);
            assert(self.spec_color(1) == self.colors[1]);
            assert(self.spec_color(2) == self.colors[2]);
        }
        let nu = interp_raw(self.u_over_w[0], self.u_over_w[1], self.u_over_w[2], l0, l1, l2);
        let nv = interp_raw(self.v_over_w[0], self.v_over_w[1], self.v_over_w[2], l0, l1, l2);
        let niw = interp_raw(self.inv_w[0], self.inv_w[1], self.inv_w[2], l0, l1, l2);
        let u = persp_coord(nu, niw);
        let v = persp_coord(nv, niw);
        let tex = self.texture.sample(u, v);
        let lr = interp_unit(self.colors[0].0, self.colors[1].0, self.colors[2].0, l0, l1, l2);
        let lg = interp_unit(self.colors[0].1, self.colors[1].1, self.colors[2].1, l0, l1, l2);
        let lb = interp_unit(self.colors[0].2, self.colors[1].2, self.colors[2].2, l0, l1, l2);
        let (tr, tg, tb) = unpack_color(tex);
        pack_color(modulate_fx(tr, lr), modulate_fx(tg, lg), modulate_fx(tb, lb), FX_ONE)
    }
}

} // verus!
