//! A read-only 2D texture of packed colors.
//!
//! Texture coordinates are fixed-point values at scale
//! [`crate::fixed::FX_ONE`]; `[0, FX_ONE)` spans the image once.
//! Coordinates outside that range wrap (the texture repeats), which is the
//! deterministic out-of-range policy this crate chooses.

use vstd::prelude::*;

verus! {

use crate::fixed::div_floor;
use crate::fixed::lemma_mul_bound;
use crate::fixed::FX_ONE;
use crate::framebuffer::lemma_row_index;
use crate::framebuffer::MAX_DIM;
use vstd::arithmetic::div_mod::lemma_fundamental_div_mod;

/// Magnitude bound on the texture coordinates [`Texture::sample`] accepts;
/// far beyond the wrap range of any real texture.
pub const UV_LIMIT: i64 = 0x100_0000_0000;

/// A 2D array of packed ARGB8888 colors, sampled read-only.
pub struct Texture {
    data: Vec<u32>,
    width: u32,
    height: u32,
}

impl Texture {
    /// The texture's width in texels.
    pub closed spec fn spec_width(&self) -> u32 {
        self.width
    }

    /// The texture's height in texels.
    pub closed spec fn spec_height(&self) -> u32 {
        self.height
    }

    /// Well-formedness: nonempty, bounded dimensions, row-major storage of
    /// the right length.
    pub closed spec fn wf(&self) -> bool {
        &&& self.data@.len() == self.width * self.height
        &&& 1 <= self.width <= MAX_DIM
        &&& 1 <= self.height <= MAX_DIM
    }

    /// The texel stored at column `x` of row `y`.
    pub closed spec fn texel(&self, x: int, y: int) -> u32 {
        self.data@[y * self.spec_width() + x]
    }

    /// The texel column a `u` coordinate lands on: scaled to texel units,
    /// floored, then wrapped into the image.
    pub open spec fn wrap_x(&self, u: int) -> int {
        (u * self.spec_width() / (FX_ONE as int)) % (self.spec_width() as int)
    }

    /// The texel row a `v` coordinate lands on.
    pub open spec fn wrap_y(&self, v: int) -> int {
        (v * self.spec_height() / (FX_ONE as int)) % (self.spec_height() as int)
    }

    /// What [`Texture::sample`] returns for the coordinates `(u, v)`.
    pub open spec fn sample_spec(&self, u: int, v: int) -> u32 {
        self.texel(self.wrap_x(u), self.wrap_y(v))
    }

    /// Create a texture from its texels and dimensions; the array length
    /// must match the dimensions and both must be at least one texel.
    pub fn new(data: Vec<u32>, width: u32, height: u32) -> (t: Texture)
        requires
            data@.len() == width * height,
            1 <= width <= MAX_DIM,
            1 <= height <= MAX_DIM,
        ensures
            t.wf(),
            t.spec_width() == width,
            t.spec_height() == height,
            forall|x: int, y: int|
                0 <= x < width && 0 <= y < height ==> t.texel(x, y) == data@[y * width + x],
    {
        Texture { data, width, height }
    }

    /// The texture's width in texels.
    pub fn width(&self) -> (w: u32)
        ensures
            w == self.spec_width(),
    {
        self.width
    }

    /// The texture's height in texels.
    pub fn height(&self) -> (h: u32)
        ensures
            h == self.spec_height(),
    {
        self.height
    }

    /// Sample the texture at `(u, v)`: the coordinates are scaled to texel
    /// units, floored, and wrapped into the image (the texture repeats
    /// outside `[0, FX_ONE)`).
    pub fn sample(&self, u: i64, v: i64) -> (c: u32)
        requires
            self.wf(),
            -UV_LIMIT <= u <= UV_LIMIT,
            -UV_LIMIT <= v <= UV_LIMIT,
        ensures
            c == self.sample_spec(u as int, v as int),
    {
        let x = wrap_coord(u, self.width);
        let y = wrap_coord(v, self.height);
        proof {
            lemma_row_index(self.width as int, self.height as int, x as int, y as int);
            lemma_mul_bound(self.width as int, MAX_DIM as int, self.height as int,
                MAX_DIM as int);
        }
        let index = (y as u32 * self.width + x as u32) as usize;
        self.data[index]
    }
}

/// Scale a fixed-point coordinate to texel units, floor it, and wrap it
/// into `[0, dim)`.
fn wrap_coord(c: i64, dim: u32) -> (x: i64)
    requires
        1 <= dim <= MAX_DIM,
        -UV_LIMIT <= c <= UV_LIMIT,
    ensures
        x == (c * dim / (FX_ONE as int)) % (dim as int),
        0 <= x < dim,
{
    proof {
        lemma_mul_bound(c as int, UV_LIMIT as int, dim as int, MAX_DIM as int);
    }
    let scaled = div_floor(c * dim as i64, FX_ONE);
    proof {
        assert(-UV_LIMIT <= scaled <= UV_LIMIT) by (nonlinear_arith)
            requires
                FX_ONE * scaled <= c * dim < FX_ONE * (scaled as int + 1),
                -UV_LIMIT * MAX_DIM <= c * dim <= UV_LIMIT * MAX_DIM,
        {}
    }
    let q = div_floor(scaled, dim as i64);
    proof {
        lemma_fundamental_div_mod(scaled as int, dim as int);
        assert(scaled - dim < dim as int * q <= scaled && dim as int * q == q as int * dim)
            by (nonlinear_arith)
            requires
                dim as int * q <= scaled < dim as int * (q as int + 1),
                dim >= 1,
        {}
    }
    scaled - q * dim as i64
}

} // verus!
