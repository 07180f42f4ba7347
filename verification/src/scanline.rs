//! Scanline triangle rasterization.
//!
//! The flat-top/flat-bottom decomposition: the vertices are sorted by
//! ascending `y` and the triangle is filled in two sections split at the
//! middle vertex's row — the rows above it bounded by the two upper
//! edges, the rows below by the two lower edges.  The split point is the
//! long edge's exact intercept, kept as a rational rather than rounded,
//! so both sections sample the triangle's true edges.
//!
//! Rows and columns are sampled at pixel centers, the same `(x + 1/2,
//! y + 1/2)` points the edge-function strategy tests, so the two
//! strategies fill the same pixels.  A row's span runs from the left
//! intercept to the right one, half-open: a center exactly on the left
//! intercept is filled, one exactly on the right is not, which matches
//! the top-left ownership convention of
//! [`crate::edgefunction::owns_boundary`] (the left span edge points
//! down the triangle's interior side, the right one up).
//!
//! All span arithmetic is exact: an edge's intercept with the row's
//! center line is the rational `(2*ax*h + (2*dy + 1)*dx) / (2*h)`, kept
//! as numerator and positive denominator.

use vstd::prelude::*;

verus! {

use crate::colors::lerp_fx;
use crate::colors::pack_rgba;
use crate::fixed::div_ceil;
use crate::fixed::div_floor;
use crate::fixed::div_floor_wide;
use crate::fixed::lemma_mul_bound;
use crate::fixed::FX_ONE;
use crate::framebuffer::FrameBuffer;
use crate::math::utils::edge_value;
use crate::math::vec2::Vec2;
use crate::triangle::TRI_COORD_LIMIT;
use vstd::math::max;
use vstd::math::min;

/// The numerator of an edge's x-intercept: the edge starts at column
/// `ax` and advances `dx` columns over `h` rows, and the intercept with
/// the line `dy` rows below the anchor is this value divided by `h`.
pub open spec fn intercept_num(ax: int, dx: int, h: int, dy: int) -> int {
    ax * h + dx * dy
}

/// The doubled numerator of the intercept of edge `(a -> b)` with the
/// center line of row `y`, over the denominator `2 * (b.y - a.y)`.
pub open spec fn edge_num(a: Vec2, b: Vec2, y: int) -> int {
    intercept_num(a.x as int, b.x - a.x, 2 * (b.y - a.y), 2 * (y - a.y) + 1)
}

/// The first column of a span bounded on the left by the intercept
/// `n / (2h)`: the smallest `x` whose center satisfies `2x + 1 >= n / h`
/// — the left boundary is owned and included.
pub open spec fn span_from(n: int, h: int) -> int {
    -((-(n - h)) / (2 * h))
}

/// The last column of a span bounded on the right by the intercept
/// `n / (2h)`: the largest `x` whose center satisfies `2x + 1 < n / h`
/// — the right boundary is not owned and excluded.
pub open spec fn span_until(n: int, h: int) -> int {
    (n - 1 - h) / (2 * h)
}

/// A row's filled span between two intercepts `n1 / (2 * h1)` and
/// `n2 / (2 * h2)`: whichever is geometrically left bounds the span
/// inclusively, the right one exclusively.
pub open spec fn span_covers(n1: int, h1: int, n2: int, h2: int, x: int) -> bool {
    if n1 * h2 <= n2 * h1 {
        span_from(n1, h1) <= x <= span_until(n2, h2)
    } else {
        span_from(n2, h2) <= x <= span_until(n1, h1)
    }
}

/// A flat-bottom section covers pixel `(x, y)`: rows from `v0`'s down to
/// just above `v1`'s, columns between the edges `v0 -> v1` and
/// `v0 -> v2`.  For a flat-bottom triangle (`v1.y == v2.y`) this is the
/// whole triangle.
pub open spec fn fb_covered(v0: Vec2, v1: Vec2, v2: Vec2, x: int, y: int) -> bool {
    let h1 = v1.y - v0.y;
    let h2 = v2.y - v0.y;
    &&& h1 > 0
    &&& h1 <= h2
    &&& v0.y <= y < v1.y
    &&& span_covers(edge_num(v0, v1, y), h1, edge_num(v0, v2, y), h2, x)
}

/// A flat-top section covers pixel `(x, y)`: rows from `v0`'s down to
/// just above `v2`'s, columns between the edges `v0 -> v2` and
/// `v1 -> v2`; `v1` lies no lower than `v0`.  For a flat-top triangle
/// (`v0.y == v1.y`) this is the whole triangle.
pub open spec fn ft_covered(v0: Vec2, v1: Vec2, v2: Vec2, x: int, y: int) -> bool {
    let ha = v2.y - v0.y;
    let hb = v2.y - v1.y;
    &&& ha > 0
    &&& v1.y <= v0.y
    &&& v0.y <= y < v2.y
    &&& span_covers(edge_num(v0, v2, y), ha, edge_num(v1, v2, y), hb, x)
}

/// The three vertices reordered by ascending `y` (the stable
/// three-comparison exchange network the sorter performs).
pub open spec fn ysorted3(a: Vec2, b: Vec2, c: Vec2) -> (Vec2, Vec2, Vec2) {
    let (a1, b1) = if b.y < a.y {
        (b, a)
    } else {
        (a, b)
    };
    let (b2, c2) = if c.y < b1.y {
        (c, b1)
    } else {
        (b1, c)
    };
    let (a3, b3) = if b2.y < a1.y {
        (b2, a1)
    } else {
        (a1, b2)
    };
    (a3, b3, c2)
}

/// The vertices reordered by ascending `y` with their colors carried
/// along by the same exchanges.
pub open spec fn ysorted3c(
    a: Vec2,
    b: Vec2,
    c: Vec2,
    ca: (i64, i64, i64),
    cb: (i64, i64, i64),
    cc: (i64, i64, i64),
) -> (Vec2, Vec2, Vec2, (i64, i64, i64), (i64, i64, i64), (i64, i64, i64)) {
    let (a1, b1, ca1, cb1) = if b.y < a.y {
        (b, a, cb, ca)
    } else {
        (a, b, ca, cb)
    };
    let (b2, c2, cb2, cc2) = if c.y < b1.y {
        (c, b1, cc, cb1)
    } else {
        (b1, c, cb1, cc)
    };
    let (a3, b3, ca3, cb3) = if b2.y < a1.y {
        (b2, a1, cb2, ca1)
    } else {
        (a1, b2, ca1, cb2)
    };
    (a3, b3, c2, ca3, cb3, cc2)
}

/// The unpacked fixed-point channel triple of a packed color.
pub open spec fn unpacked_c(c: u32) -> (i64, i64, i64) {
    let (r, g, b) = crate::shader::unpacked_rgb(c);
    (r as i64, g as i64, b as i64)
}

/// All three channels of an unpacked color lie in `[0, FX_ONE]`.
pub open spec fn unit_channels(c: (i64, i64, i64)) -> bool {
    0 <= c.0 <= FX_ONE && 0 <= c.1 <= FX_ONE && 0 <= c.2 <= FX_ONE
}

/// One color channel interpolated along a fraction `num / den`:
/// `a + (b - a) * num / den`, floored.
pub open spec fn lerp_frac(a: int, b: int, num: int, den: int) -> int {
    a + (b - a) * num / den
}

/// The color of edge `(a -> b)` where it meets the center line of row
/// `y`: the endpoint colors interpolated by the row's fraction of the
/// edge's height.
pub open spec fn edge_color(
    ca: (i64, i64, i64),
    cb: (i64, i64, i64),
    a: Vec2,
    b: Vec2,
    y: int,
) -> (int, int, int) {
    let num = 2 * (y - a.y) + 1;
    let den = 2 * (b.y - a.y);
    (
        lerp_frac(ca.0 as int, cb.0 as int, num, den),
        lerp_frac(ca.1 as int, cb.1 as int, num, den),
        lerp_frac(ca.2 as int, cb.2 as int, num, den),
    )
}

/// The color at column `x` of a Gouraud span: the edge color whose
/// intercept is geometrically left, interpolated toward the right one by
/// the center's fraction `tx` of the span width (floored at scale
/// `FX_ONE`); a zero-width span takes the left color outright.
pub open spec fn span_pixel(
    n1: int,
    h1: int,
    n2: int,
    h2: int,
    ca: (int, int, int),
    cb: (int, int, int),
    x: int,
) -> u32 {
    let swap = n1 * h2 > n2 * h1;
    let nl = if swap {
        n2
    } else {
        n1
    };
    let hl = if swap {
        h2
    } else {
        h1
    };
    let cl = if swap {
        cb
    } else {
        ca
    };
    let nr = if swap {
        n1
    } else {
        n2
    };
    let hr = if swap {
        h1
    } else {
        h2
    };
    let cr = if swap {
        ca
    } else {
        cb
    };
    let dent = nr * hl - nl * hr;
    let tx = if dent == 0 {
        0
    } else {
        ((2 * x + 1) * hl - nl) * hr * (FX_ONE as int) / dent
    };
    pack_rgba(lerp_fx(cl.0, cr.0, tx), lerp_fx(cl.1, cr.1, tx), lerp_fx(cl.2, cr.2, tx),
        FX_ONE as int)
}

/// The Gouraud color a flat-bottom section writes at pixel `(x, y)`.
pub open spec fn fb_gouraud_pixel(
    v0: Vec2,
    v1: Vec2,
    v2: Vec2,
    c0: (i64, i64, i64),
    c1: (i64, i64, i64),
    c2: (i64, i64, i64),
    x: int,
    y: int,
) -> u32 {
    span_pixel(
        edge_num(v0, v1, y),
        v1.y - v0.y,
        edge_num(v0, v2, y),
        v2.y - v0.y,
        edge_color(c0, c1, v0, v1, y),
        edge_color(c0, c2, v0, v2, y),
        x,
    )
}

/// The Gouraud color a flat-top section writes at pixel `(x, y)`.
pub open spec fn ft_gouraud_pixel(
    v0: Vec2,
    v1: Vec2,
    v2: Vec2,
    c0: (i64, i64, i64),
    c1: (i64, i64, i64),
    c2: (i64, i64, i64),
    x: int,
    y: int,
) -> u32 {
    span_pixel(
        edge_num(v0, v2, y),
        v2.y - v0.y,
        edge_num(v1, v2, y),
        v2.y - v1.y,
        edge_color(c0, c2, v0, v2, y),
        edge_color(c1, c2, v1, v2, y),
        x,
    )
}

/// The set of pixels the scanline strategy fills for a triangle with the
/// given (unsorted) vertices: nothing for a degenerate triangle, else
/// the union of the two sections around the middle vertex's row.
pub open spec fn scanline_covered(p0: Vec2, p1: Vec2, p2: Vec2, x: int, y: int) -> bool {
    let (s0, s1, s2) = ysorted3(p0, p1, p2);
    &&& edge_value(p0.x as int, p0.y as int, p1.x as int, p1.y as int, p2.x as int, p2.y as int)
        != 0
    &&& (fb_covered(s0, s1, s2, x, y) || ft_covered(s1, s0, s2, x, y))
}

/// The color the scanline strategy writes at a covered pixel in Gouraud
/// mode; the two sections cover disjoint rows.
pub open spec fn scanline_gouraud_pixel(
    p0: Vec2,
    p1: Vec2,
    p2: Vec2,
    ca: (i64, i64, i64),
    cb: (i64, i64, i64),
    cc: (i64, i64, i64),
    x: int,
    y: int,
) -> u32 {
    let (s0, s1, s2, d0, d1, d2) = ysorted3c(p0, p1, p2, ca, cb, cc);
    if ft_covered(s1, s0, s2, x, y) {
        ft_gouraud_pixel(s1, s0, s2, d1, d0, d2, x, y)
    } else {
        fb_gouraud_pixel(s0, s1, s2, d0, d1, d2, x, y)
    }
}

/// A degenerate triangle — all three vertices collinear, zero area — is
/// covered nowhere: the scanline strategy writes no pixel for it.
pub proof fn lemma_scanline_degenerate_covers_nothing(
    p0: Vec2,
    p1: Vec2,
    p2: Vec2,
    x: int,
    y: int,
)
    requires
        edge_value(
            p0.x as int,
            p0.y as int,
            p1.x as int,
            p1.y as int,
            p2.x as int,
            p2.y as int,
        ) == 0,
    ensures
        !scanline_covered(p0, p1, p2, x, y),
{
}

/// An x-intercept interpolating an edge stays between the edge's two
/// endpoint columns (scaled by the denominator).
proof fn lemma_intercept_range(ax: int, bx: int, h: int, dy: int)
    by (nonlinear_arith)
    requires
        1 <= h,
        0 <= dy <= h,
    ensures
        min(ax, bx) * h <= intercept_num(ax, bx - ax, h, dy) <= max(ax, bx) * h,
{
}

/// The span columns cut from an edge whose endpoint columns lie in
/// `[lo, hi]` stay within one column of that range.
proof fn lemma_span_range(ax: int, bx: int, h: int, t: int, lo: int, hi: int)
    requires
        1 <= h,
        0 <= t <= 2 * h,
        lo <= ax <= hi,
        lo <= bx <= hi,
    ensures
        lo <= span_from(intercept_num(ax, bx - ax, 2 * h, t), h) <= hi,
        lo - 1 <= span_until(intercept_num(ax, bx - ax, 2 * h, t), h) <= hi,
{
    let n = intercept_num(ax, bx - ax, 2 * h, t);
    let d2 = 2 * h;
    lemma_intercept_range(ax, bx, d2, t);
    assert(lo * d2 <= n <= hi * d2) by (nonlinear_arith)
        requires
            min(ax, bx) * d2 <= n <= max(ax, bx) * d2,
            lo <= ax <= hi && lo <= bx <= hi,
            1 <= d2,
    ;
    assert(lo <= span_from(n, h) <= hi) by {
        assert((-hi) * d2 <= h - n && h - n <= (-lo + 1) * d2 - 1) by (nonlinear_arith)
            requires
                lo * d2 <= n <= hi * d2,
                d2 == 2 * h,
                1 <= h,
        ;
        vstd::arithmetic::div_mod::lemma_div_is_ordered((-hi) * d2, h - n, d2);
        vstd::arithmetic::div_mod::lemma_div_multiples_vanish(-hi, d2);
        assert((-hi) * d2 == d2 * -hi) by (nonlinear_arith);
        vstd::arithmetic::div_mod::lemma_div_is_ordered(h - n, (-lo + 1) * d2 - 1, d2);
        assert((-lo + 1) * d2 - 1 == (-lo) * d2 + (d2 - 1)) by (nonlinear_arith);
        vstd::arithmetic::div_mod::lemma_fundamental_div_mod_converse((-lo + 1) * d2 - 1, d2,
            -lo, d2 - 1);
    }
    assert(lo - 1 <= span_until(n, h) <= hi) by {
        assert((lo - 1) * d2 <= n - 1 - h && n - 1 - h <= (hi + 1) * d2 - 1)
            by (nonlinear_arith)
            requires
                lo * d2 <= n <= hi * d2,
                d2 == 2 * h,
                1 <= h,
        ;
        vstd::arithmetic::div_mod::lemma_div_is_ordered((lo - 1) * d2, n - 1 - h, d2);
        vstd::arithmetic::div_mod::lemma_div_multiples_vanish(lo - 1, d2);
        assert((lo - 1) * d2 == d2 * (lo - 1)) by (nonlinear_arith);
        vstd::arithmetic::div_mod::lemma_div_is_ordered(n - 1 - h, (hi + 1) * d2 - 1, d2);
        assert((hi + 1) * d2 - 1 == hi * d2 + (d2 - 1)) by (nonlinear_arith);
        vstd::arithmetic::div_mod::lemma_fundamental_div_mod_converse((hi + 1) * d2 - 1, d2,
            hi, d2 - 1);
    }
}

/// Interpolating between two in-range channels along a fraction in
/// `[0, 1]` stays between them.
proof fn lemma_lerp_frac_range(a: int, b: int, num: int, den: int)
    requires
        1 <= den,
        0 <= num <= den,
    ensures
        min(a, b) <= lerp_frac(a, b, num, den) <= max(a, b),
{
    let d = b - a;
    if d >= 0 {
        assert(0 <= d * num <= d * den) by (nonlinear_arith)
            requires
                0 <= num <= den,
                d >= 0,
        ;
        vstd::arithmetic::div_mod::lemma_div_pos_is_pos(d * num, den);
        vstd::arithmetic::div_mod::lemma_div_is_ordered(d * num, d * den, den);
        vstd::arithmetic::div_mod::lemma_div_multiples_vanish(d, den);
        assert(d * den == den * d) by (nonlinear_arith);
    } else {
        assert(d * den <= d * num <= 0) by (nonlinear_arith)
            requires
                0 <= num <= den,
                d < 0,
        ;
        vstd::arithmetic::div_mod::lemma_div_is_ordered(d * den, d * num, den);
        vstd::arithmetic::div_mod::lemma_div_is_ordered(d * num, 0, den);
        vstd::arithmetic::div_mod::lemma_div_multiples_vanish(d, den);
        vstd::arithmetic::div_mod::lemma_div_of0(den);
        assert(d * den == den * d) by (nonlinear_arith);
    }
}

/// Largest numerator or denominator magnitude [`lerp_channels`] accepts.
pub const LERP_DEN_LIMIT: i64 = 0x100_0000_0000;

/// Interpolate between two unpacked colors along the fraction
/// `num / den`, per channel, exactly as [`lerp_frac`] states.
fn lerp_channels(c1: (i64, i64, i64), c2: (i64, i64, i64), num: i64, den: i64) -> (c: (
    i64,
    i64,
    i64,
))
    requires
        1 <= den <= LERP_DEN_LIMIT,
        0 <= num <= den,
        unit_channels(c1),
        unit_channels(c2),
    ensures
        c.0 == lerp_frac(c1.0 as int, c2.0 as int, num as int, den as int),
        c.1 == lerp_frac(c1.1 as int, c2.1 as int, num as int, den as int),
        c.2 == lerp_frac(c1.2 as int, c2.2 as int, num as int, den as int),
        unit_channels(c),
{
    proof {
        lemma_mul_bound(c2.0 - c1.0, FX_ONE as int, num as int, LERP_DEN_LIMIT as int);
        lemma_mul_bound(c2.1 - c1.1, FX_ONE as int, num as int, LERP_DEN_LIMIT as int);
        lemma_mul_bound(c2.2 - c1.2, FX_ONE as int, num as int, LERP_DEN_LIMIT as int);
        lemma_lerp_frac_range(c1.0 as int, c2.0 as int, num as int, den as int);
        lemma_lerp_frac_range(c1.1 as int, c2.1 as int, num as int, den as int);
        lemma_lerp_frac_range(c1.2 as int, c2.2 as int, num as int, den as int);
    }
    let r = c1.0 + div_floor((c2.0 - c1.0) * num, den);
    let g = c1.1 + div_floor((c2.1 - c1.1) * num, den);
    let b = c1.2 + div_floor((c2.2 - c1.2) * num, den);
    (r, g, b)
}

/// Magnitude bound on an intercept numerator handed to the span fills.
pub const SPAN_NUM_LIMIT: i64 = 0x400_0000_0000;

/// Scanline-based triangle rasterizer: decomposes into flat-top and
/// flat-bottom sections and fills whole horizontal spans per row.
pub struct ScanlineRasterizer;

impl ScanlineRasterizer {
    /// Create a scanline rasterizer.
    pub fn new() -> (r: ScanlineRasterizer)
    {
        ScanlineRasterizer {  }
    }

    /// Reorder the three vertices by ascending `y`, stably.
    pub fn sort_vertices(v0: &mut Vec2, v1: &mut Vec2, v2: &mut Vec2)
        ensures
            (*final(v0), *final(v1), *final(v2)) == ysorted3(*old(v0), *old(v1), *old(v2)),
            final(v0).y <= final(v1).y <= final(v2).y,
    {
        let mut a = *v0;
        let mut b = *v1;
        let mut c = *v2;
        if b.y < a.y {
            let t = a;
            a = b;
            b = t;
        }
        if c.y < b.y {
            let t = b;
            b = c;
            c = t;
        }
        if b.y < a.y {
            let t = a;
            a = b;
            b = t;
        }
        *v0 = a;
        *v1 = b;
        *v2 = c;
    }

    /// Reorder the three vertices by ascending `y`, carrying the
    /// matching colors through the same exchanges so each vertex keeps
    /// its color.
    pub fn sort_vertices_with_colors(
        v0: &mut Vec2,
        v1: &mut Vec2,
        v2: &mut Vec2,
        c0: &mut (i64, i64, i64),
        c1: &mut (i64, i64, i64),
        c2: &mut (i64, i64, i64),
    )
        ensures
            (
                *final(v0),
                *final(v1),
                *final(v2),
                *final(c0),
                *final(c1),
                *final(c2),
            ) == ysorted3c(*old(v0), *old(v1), *old(v2), *old(c0), *old(c1), *old(c2)),
            final(v0).y <= final(v1).y <= final(v2).y,
    {
        let mut a = *v0;
        let mut b = *v1;
        let mut c = *v2;
        let mut ca = *c0;
        let mut cb = *c1;
        let mut cc = *c2;
        if b.y < a.y {
            let t = a;
            a = b;
            b = t;
            let tc = ca;
            ca = cb;
            cb = tc;
        }
        if c.y < b.y {
            let t = b;
            b = c;
            c = t;
            let tc = cb;
            cb = cc;
            cc = tc;
        }
        if b.y < a.y {
            let t = a;
            a = b;
            b = t;
            let tc = ca;
            ca = cb;
            cb = tc;
        }
        *v0 = a;
        *v1 = b;
        *v2 = c;
        *c0 = ca;
        *c1 = cb;
        *c2 = cc;
    }

    /// Fill a flat-bottom section with a solid color: rows from `v0`'s
    /// down to just above `v1`'s, between the edges `v0 -> v1` and
    /// `v0 -> v2`.  A section of no height, or one whose bottom vertex
    /// `v2` lies above `v1`, is a no-op.
    pub fn fill_flat_bottom_solid(
        v0: Vec2,
        v1: Vec2,
        v2: Vec2,
        buffer: &mut FrameBuffer,
        color: u32,
    )
        requires
            old(buffer).wf(),
            v0.bounded(TRI_COORD_LIMIT),
            v1.bounded(TRI_COORD_LIMIT),
            v2.bounded(TRI_COORD_LIMIT),
        ensures
            final(buffer).wf(),
            final(buffer).spec_width() == old(buffer).spec_width(),
            final(buffer).spec_height() == old(buffer).spec_height(),
            forall|xi: int, yi: int|
                old(buffer).in_bounds(xi, yi) ==> final(buffer).pix(xi, yi) == (if fb_covered(
                    v0,
                    v1,
                    v2,
                    xi,
                    yi,
                ) {
                    color
                } else {
                    old(buffer).pix(xi, yi)
                }),
    {
        let h1 = v1.y - v0.y;
        let h2 = v2.y - v0.y;
        if h1 <= 0 || h2 < h1 {
            return ;
        }
        let mut y: i64 = v0.y;
        while y < v1.y
            invariant
                old(buffer).wf(),
                buffer.wf(),
                buffer.spec_width() == old(buffer).spec_width(),
                buffer.spec_height() == old(buffer).spec_height(),
                v0.bounded(TRI_COORD_LIMIT),
                v1.bounded(TRI_COORD_LIMIT),
                v2.bounded(TRI_COORD_LIMIT),
                h1 == v1.y - v0.y,
                h2 == v2.y - v0.y,
                0 < h1 <= h2,
                v0.y <= y <= v1.y,
                forall|xi: int, yi: int|
                    old(buffer).in_bounds(xi, yi) ==> buffer.pix(xi, yi) == (if fb_covered(
                        v0,
                        v1,
                        v2,
                        xi,
                        yi,
                    ) && yi < y {
                        color
                    } else {
                        old(buffer).pix(xi, yi)
                    }),
            decreases v1.y - y,
        {
            let t = 2 * (y - v0.y) + 1;
            proof {
                lemma_mul_bound(v0.x as int, TRI_COORD_LIMIT as int, 2 * h1 as int, 8
                    * TRI_COORD_LIMIT as int);
                lemma_mul_bound(v0.x as int, TRI_COORD_LIMIT as int, 2 * h2 as int, 8
                    * TRI_COORD_LIMIT as int);
                lemma_mul_bound(v1.x - v0.x, 2 * TRI_COORD_LIMIT as int, t as int, 8
                    * TRI_COORD_LIMIT as int);
                lemma_mul_bound(v2.x - v0.x, 2 * TRI_COORD_LIMIT as int, t as int, 8
                    * TRI_COORD_LIMIT as int);
                lemma_span_range(v0.x as int, v1.x as int, h1 as int, t as int,
                    -TRI_COORD_LIMIT as int, TRI_COORD_LIMIT as int);
                lemma_span_range(v0.x as int, v2.x as int, h2 as int, t as int,
                    -TRI_COORD_LIMIT as int, TRI_COORD_LIMIT as int);
            }
            let n1 = v0.x * (2 * h1) + (v1.x - v0.x) * t;
            let n2 = v0.x * (2 * h2) + (v2.x - v0.x) * t;
            proof {
                lemma_mul_bound(n1 as int, 32 * TRI_COORD_LIMIT as int
                    * TRI_COORD_LIMIT as int, h2 as int, 2 * TRI_COORD_LIMIT as int);
                lemma_mul_bound(n2 as int, 32 * TRI_COORD_LIMIT as int
                    * TRI_COORD_LIMIT as int, h1 as int, 2 * TRI_COORD_LIMIT as int);
            }
            let (nl, hl, nr, hr) = if n1 * h2 <= n2 * h1 {
                (n1, h1, n2, h2)
            } else {
                (n2, h2, n1, h1)
            };
            let xs = div_ceil(nl - hl, 2 * hl);
            let xe = div_floor(nr - 1 - hr, 2 * hr);
            buffer.fill_scanline(y as i32, xs as i32, xe as i32, color);
            y = y + 1;
        }
    }

    /// Fill a flat-top section with a solid color: rows from `v0`'s down
    /// to just above `v2`'s, between the edges `v0 -> v2` and
    /// `v1 -> v2`; `v1` must lie no lower than `v0`.  A section of no
    /// height is a no-op.
    pub fn fill_flat_top_solid(v0: Vec2, v1: Vec2, v2: Vec2, buffer: &mut FrameBuffer, color: u32)
        requires
            old(buffer).wf(),
            v0.bounded(TRI_COORD_LIMIT),
            v1.bounded(TRI_COORD_LIMIT),
            v2.bounded(TRI_COORD_LIMIT),
        ensures
            final(buffer).wf(),
            final(buffer).spec_width() == old(buffer).spec_width(),
            final(buffer).spec_height() == old(buffer).spec_height(),
            forall|xi: int, yi: int|
                old(buffer).in_bounds(xi, yi) ==> final(buffer).pix(xi, yi) == (if ft_covered(
                    v0,
                    v1,
                    v2,
                    xi,
                    yi,
                ) {
                    color
                } else {
                    old(buffer).pix(xi, yi)
                }),
    {
        let ha = v2.y - v0.y;
        if ha <= 0 || v1.y > v0.y {
            return ;
        }
        let hb = v2.y - v1.y;
        let mut y: i64 = v0.y;
        while y < v2.y
            invariant
                old(buffer).wf(),
                buffer.wf(),
                buffer.spec_width() == old(buffer).spec_width(),
                buffer.spec_height() == old(buffer).spec_height(),
                v0.bounded(TRI_COORD_LIMIT),
                v1.bounded(TRI_COORD_LIMIT),
                v2.bounded(TRI_COORD_LIMIT),
                ha == v2.y - v0.y,
                hb == v2.y - v1.y,
                ha > 0,
                hb >= ha,
                v1.y <= v0.y,
                v0.y <= y <= v2.y,
                forall|xi: int, yi: int|
                    old(buffer).in_bounds(xi, yi) ==> buffer.pix(xi, yi) == (if ft_covered(
                        v0,
                        v1,
                        v2,
                        xi,
                        yi,
                    ) && yi < y {
                        color
                    } else {
                        old(buffer).pix(xi, yi)
                    }),
            decreases v2.y - y,
        {
            let ta = 2 * (y - v0.y) + 1;
            let tb = 2 * (y - v1.y) + 1;
            proof {
                lemma_mul_bound(v0.x as int, TRI_COORD_LIMIT as int, 2 * ha as int, 8
                    * TRI_COORD_LIMIT as int);
                lemma_mul_bound(v1.x as int, TRI_COORD_LIMIT as int, 2 * hb as int, 8
                    * TRI_COORD_LIMIT as int);
                lemma_mul_bound(v2.x - v0.x, 2 * TRI_COORD_LIMIT as int, ta as int, 8
                    * TRI_COORD_LIMIT as int);
                lemma_mul_bound(v2.x - v1.x, 2 * TRI_COORD_LIMIT as int, tb as int, 8
                    * TRI_COORD_LIMIT as int);
                lemma_span_range(v0.x as int, v2.x as int, ha as int, ta as int,
                    -TRI_COORD_LIMIT as int, TRI_COORD_LIMIT as int);
                lemma_span_range(v1.x as int, v2.x as int, hb as int, tb as int,
                    -TRI_COORD_LIMIT as int, TRI_COORD_LIMIT as int);
            }
            let na = v0.x * (2 * ha) + (v2.x - v0.x) * ta;
            let nb = v1.x * (2 * hb) + (v2.x - v1.x) * tb;
            proof {
                lemma_mul_bound(na as int, 32 * TRI_COORD_LIMIT as int
                    * TRI_COORD_LIMIT as int, hb as int, 4 * TRI_COORD_LIMIT as int);
                lemma_mul_bound(nb as int, 32 * TRI_COORD_LIMIT as int
                    * TRI_COORD_LIMIT as int, ha as int, 2 * TRI_COORD_LIMIT as int);
            }
            let (nl, hl, nr, hr) = if na * hb <= nb * ha {
                (na, ha, nb, hb)
            } else {
                (nb, hb, na, ha)
            };
            let xs = div_ceil(nl - hl, 2 * hl);
            let xe = div_floor(nr - 1 - hr, 2 * hr);
            buffer.fill_scanline(y as i32, xs as i32, xe as i32, color);
            y = y + 1;
        }
    }

    /// Fill a flat-bottom section with Gouraud shading: `v0` carries
    /// `c0`, `v1` carries `c1`, `v2` carries `c2` (unpacked fixed-point
    /// channel triples).  Exactly the pixels of [`fb_covered`] change,
    /// to [`fb_gouraud_pixel`].
    pub fn fill_flat_bottom_gouraud(
        v0: Vec2,
        v1: Vec2,
        v2: Vec2,
        c0: (i64, i64, i64),
        c1: (i64, i64, i64),
        c2: (i64, i64, i64),
        buffer: &mut FrameBuffer,
    )
        requires
            old(buffer).wf(),
            v0.bounded(TRI_COORD_LIMIT),
            v1.bounded(TRI_COORD_LIMIT),
            v2.bounded(TRI_COORD_LIMIT),
            unit_channels(c0),
            unit_channels(c1),
            unit_channels(c2),
        ensures
            final(buffer).wf(),
            final(buffer).spec_width() == old(buffer).spec_width(),
            final(buffer).spec_height() == old(buffer).spec_height(),
            forall|xi: int, yi: int|
                old(buffer).in_bounds(xi, yi) ==> final(buffer).pix(xi, yi) == (if fb_covered(
                    v0,
                    v1,
                    v2,
                    xi,
                    yi,
                ) {
                    fb_gouraud_pixel(v0, v1, v2, c0, c1, c2, xi, yi)
                } else {
                    old(buffer).pix(xi, yi)
                }),
    {
        let h1 = v1.y - v0.y;
        let h2 = v2.y - v0.y;
        if h1 <= 0 || h2 < h1 {
            return ;
        }
        let mut y: i64 = v0.y;
        while y < v1.y
            invariant
                old(buffer).wf(),
                buffer.wf(),
                buffer.spec_width() == old(buffer).spec_width(),
                buffer.spec_height() == old(buffer).spec_height(),
                v0.bounded(TRI_COORD_LIMIT),
                v1.bounded(TRI_COORD_LIMIT),
                v2.bounded(TRI_COORD_LIMIT),
                unit_channels(c0),
                unit_channels(c1),
                unit_channels(c2),
                h1 == v1.y - v0.y,
                h2 == v2.y - v0.y,
                0 < h1 <= h2,
                v0.y <= y <= v1.y,
                forall|xi: int, yi: int|
                    old(buffer).in_bounds(xi, yi) ==> buffer.pix(xi, yi) == (if fb_covered(
                        v0,
                        v1,
                        v2,
                        xi,
                        yi,
                    ) && yi < y {
                        fb_gouraud_pixel(v0, v1, v2, c0, c1, c2, xi, yi)
                    } else {
                        old(buffer).pix(xi, yi)
                    }),
            decreases v1.y - y,
        {
            let t = 2 * (y - v0.y) + 1;
            proof {
                lemma_mul_bound(v0.x as int, TRI_COORD_LIMIT as int, 2 * h1 as int, 8
                    * TRI_COORD_LIMIT as int);
                lemma_mul_bound(v0.x as int, TRI_COORD_LIMIT as int, 2 * h2 as int, 8
                    * TRI_COORD_LIMIT as int);
                lemma_mul_bound(v1.x - v0.x, 2 * TRI_COORD_LIMIT as int, t as int, 8
                    * TRI_COORD_LIMIT as int);
                lemma_mul_bound(v2.x - v0.x, 2 * TRI_COORD_LIMIT as int, t as int, 8
                    * TRI_COORD_LIMIT as int);
                lemma_span_range(v0.x as int, v1.x as int, h1 as int, t as int,
                    -TRI_COORD_LIMIT as int, TRI_COORD_LIMIT as int);
                lemma_span_range(v0.x as int, v2.x as int, h2 as int, t as int,
                    -TRI_COORD_LIMIT as int, TRI_COORD_LIMIT as int);
            }
            let n1 = v0.x * (2 * h1) + (v1.x - v0.x) * t;
            let n2 = v0.x * (2 * h2) + (v2.x - v0.x) * t;
            let ca = lerp_channels(c0, c1, t, 2 * h1);
            let cb = lerp_channels(c0, c2, t, 2 * h2);
            Self::fill_gouraud_span(n1, h1, n2, h2, ca, cb, y, buffer);
            y = y + 1;
        }
    }

    /// Fill a flat-top section with Gouraud shading: `v0` carries `c0`,
    /// `v1` carries `c1`, `v2` carries `c2`.  Exactly the pixels of
    /// [`ft_covered`] change, to [`ft_gouraud_pixel`].
    pub fn fill_flat_top_gouraud(
        v0: Vec2,
        v1: Vec2,
        v2: Vec2,
        c0: (i64, i64, i64),
        c1: (i64, i64, i64),
        c2: (i64, i64, i64),
        buffer: &mut FrameBuffer,
    )
        requires
            old(buffer).wf(),
            v0.bounded(TRI_COORD_LIMIT),
            v1.bounded(TRI_COORD_LIMIT),
            v2.bounded(TRI_COORD_LIMIT),
            unit_channels(c0),
            unit_channels(c1),
            unit_channels(c2),
        ensures
            final(buffer).wf(),
            final(buffer).spec_width() == old(buffer).spec_width(),
            final(buffer).spec_height() == old(buffer).spec_height(),
            forall|xi: int, yi: int|
                old(buffer).in_bounds(xi, yi) ==> final(buffer).pix(xi, yi) == (if ft_covered(
                    v0,
                    v1,
                    v2,
                    xi,
                    yi,
                ) {
                    ft_gouraud_pixel(v0, v1, v2, c0, c1, c2, xi, yi)
                } else {
                    old(buffer).pix(xi, yi)
                }),
    {
        let ha = v2.y - v0.y;
        if ha <= 0 || v1.y > v0.y {
            return ;
        }
        let hb = v2.y - v1.y;
        let mut y: i64 = v0.y;
        while y < v2.y
            invariant
                old(buffer).wf(),
                buffer.wf(),
                buffer.spec_width() == old(buffer).spec_width(),
                buffer.spec_height() == old(buffer).spec_height(),
                v0.bounded(TRI_COORD_LIMIT),
                v1.bounded(TRI_COORD_LIMIT),
                v2.bounded(TRI_COORD_LIMIT),
                unit_channels(c0),
                unit_channels(c1),
                unit_channels(c2),
                ha == v2.y - v0.y,
                hb == v2.y - v1.y,
                ha > 0,
                hb >= ha,
                v1.y <= v0.y,
                v0.y <= y <= v2.y,
                forall|xi: int, yi: int|
                    old(buffer).in_bounds(xi, yi) ==> buffer.pix(xi, yi) == (if ft_covered(
                        v0,
                        v1,
                        v2,
                        xi,
                        yi,
                    ) && yi < y {
                        ft_gouraud_pixel(v0, v1, v2, c0, c1, c2, xi, yi)
                    } else {
                        old(buffer).pix(xi, yi)
                    }),
            decreases v2.y - y,
        {
            let ta = 2 * (y - v0.y) + 1;
            let tb = 2 * (y - v1.y) + 1;
            proof {
                lemma_mul_bound(v0.x as int, TRI_COORD_LIMIT as int, 2 * ha as int, 8
                    * TRI_COORD_LIMIT as int);
                lemma_mul_bound(v1.x as int, TRI_COORD_LIMIT as int, 2 * hb as int, 8
                    * TRI_COORD_LIMIT as int);
                lemma_mul_bound(v2.x - v0.x, 2 * TRI_COORD_LIMIT as int, ta as int, 8
                    * TRI_COORD_LIMIT as int);
                lemma_mul_bound(v2.x - v1.x, 2 * TRI_COORD_LIMIT as int, tb as int, 8
                    * TRI_COORD_LIMIT as int);
                lemma_span_range(v0.x as int, v2.x as int, ha as int, ta as int,
                    -TRI_COORD_LIMIT as int, TRI_COORD_LIMIT as int);
                lemma_span_range(v1.x as int, v2.x as int, hb as int, tb as int,
                    -TRI_COORD_LIMIT as int, TRI_COORD_LIMIT as int);
            }
            let na = v0.x * (2 * ha) + (v2.x - v0.x) * ta;
            let nb = v1.x * (2 * hb) + (v2.x - v1.x) * tb;
            let ca = lerp_channels(c0, c2, ta, 2 * ha);
            let cb = lerp_channels(c1, c2, tb, 2 * hb);
            Self::fill_gouraud_span(na, ha, nb, hb, ca, cb, y, buffer);
            y = y + 1;
        }
    }

    /// Fill one Gouraud span: row `y`, columns between the two
    /// intercepts `n1 / (2*h1)` and `n2 / (2*h2)` (left inclusive, right
    /// exclusive), each pixel colored as [`span_pixel`] states.
    fn fill_gouraud_span(
        n1: i64,
        h1: i64,
        n2: i64,
        h2: i64,
        ca: (i64, i64, i64),
        cb: (i64, i64, i64),
        y: i64,
        buffer: &mut FrameBuffer,
    )
        requires
            old(buffer).wf(),
            1 <= h1 <= 2 * TRI_COORD_LIMIT,
            1 <= h2 <= 2 * TRI_COORD_LIMIT,
            -SPAN_NUM_LIMIT <= n1 <= SPAN_NUM_LIMIT,
            -SPAN_NUM_LIMIT <= n2 <= SPAN_NUM_LIMIT,
            -TRI_COORD_LIMIT <= span_from(n1 as int, h1 as int) <= TRI_COORD_LIMIT,
            -TRI_COORD_LIMIT <= span_from(n2 as int, h2 as int) <= TRI_COORD_LIMIT,
            -TRI_COORD_LIMIT - 1 <= span_until(n1 as int, h1 as int) <= TRI_COORD_LIMIT,
            -TRI_COORD_LIMIT - 1 <= span_until(n2 as int, h2 as int) <= TRI_COORD_LIMIT,
            -TRI_COORD_LIMIT <= y <= TRI_COORD_LIMIT,
            unit_channels(ca),
            unit_channels(cb),
        ensures
            final(buffer).wf(),
            final(buffer).spec_width() == old(buffer).spec_width(),
            final(buffer).spec_height() == old(buffer).spec_height(),
            forall|xi: int, yi: int|
                old(buffer).in_bounds(xi, yi) ==> final(buffer).pix(xi, yi) == (if yi == y as int
                    && span_covers(n1 as int, h1 as int, n2 as int, h2 as int, xi) {
                    span_pixel(
                        n1 as int,
                        h1 as int,
                        n2 as int,
                        h2 as int,
                        (ca.0 as int, ca.1 as int, ca.2 as int),
                        (cb.0 as int, cb.1 as int, cb.2 as int),
                        xi,
                    )
                } else {
                    old(buffer).pix(xi, yi)
                }),
    {
        proof {
            lemma_mul_bound(n1 as int, SPAN_NUM_LIMIT as int, h2 as int, 2
                * TRI_COORD_LIMIT as int);
            lemma_mul_bound(n2 as int, SPAN_NUM_LIMIT as int, h1 as int, 2
                * TRI_COORD_LIMIT as int);
        }
        let swap = n1 * h2 > n2 * h1;
        let (nl, hl, cl) = if swap {
            (n2, h2, cb)
        } else {
            (n1, h1, ca)
        };
        let (nr, hr, cr) = if swap {
            (n1, h1, ca)
        } else {
            (n2, h2, cb)
        };
        let xs = div_ceil(nl - hl, 2 * hl);
        let xe = div_floor(nr - 1 - hr, 2 * hr);
        let mut x: i64 = xs;
        while x <= xe
            invariant
                old(buffer).wf(),
                buffer.wf(),
                buffer.spec_width() == old(buffer).spec_width(),
                buffer.spec_height() == old(buffer).spec_height(),
                1 <= h1 <= 2 * TRI_COORD_LIMIT,
                1 <= h2 <= 2 * TRI_COORD_LIMIT,
                -SPAN_NUM_LIMIT <= n1 <= SPAN_NUM_LIMIT,
                -SPAN_NUM_LIMIT <= n2 <= SPAN_NUM_LIMIT,
                -TRI_COORD_LIMIT <= y <= TRI_COORD_LIMIT,
                unit_channels(ca),
                unit_channels(cb),
                unit_channels(cl),
                unit_channels(cr),
                swap == (n1 as int * h2 as int > n2 as int * h1 as int),
                (nl, hl, cl) == (if swap {
                    (n2, h2, cb)
                } else {
                    (n1, h1, ca)
                }),
                (nr, hr, cr) == (if swap {
                    (n1, h1, ca)
                } else {
                    (n2, h2, cb)
                }),
                xs == span_from(nl as int, hl as int),
                xe == span_until(nr as int, hr as int),
                -TRI_COORD_LIMIT <= xs,
                xe <= TRI_COORD_LIMIT,
                xs <= x,
                x <= xe + 1 || x == xs,
                forall|xi: int, yi: int|
                    old(buffer).in_bounds(xi, yi) ==> buffer.pix(xi, yi) == (if yi == y as int
                        && span_covers(n1 as int, h1 as int, n2 as int, h2 as int, xi) && xi
                        < x as int {
                        span_pixel(
                            n1 as int,
                            h1 as int,
                            n2 as int,
                            h2 as int,
                            (ca.0 as int, ca.1 as int, ca.2 as int),
                            (cb.0 as int, cb.1 as int, cb.2 as int),
                            xi,
                        )
                    } else {
                        old(buffer).pix(xi, yi)
                    }),
            decreases xe - x + 1,
        {
            proof {
                let ml = -(nl as int - hl);
                vstd::arithmetic::div_mod::lemma_fundamental_div_mod(ml, 2 * hl as int);
                assert(2 * hl * (xs as int) >= nl - hl) by (nonlinear_arith)
                    requires
                        ml == 2 * hl * (ml / (2 * hl as int)) + ml % (2 * hl as int),
                        0 <= ml % (2 * hl as int),
                        xs == -(ml / (2 * hl as int)),
                        ml == -(nl as int - hl),
                ;
                vstd::arithmetic::div_mod::lemma_fundamental_div_mod(nr as int - 1 - hr, 2
                    * hr as int);
                assert(2 * hr * (xe as int) <= nr - 1 - hr) by (nonlinear_arith)
                    requires
                        nr as int - 1 - hr == 2 * hr * ((nr as int - 1 - hr) / (2
                            * hr as int)) + (nr as int - 1 - hr) % (2 * hr as int),
                        0 <= (nr as int - 1 - hr) % (2 * hr as int),
                        xe == (nr as int - 1 - hr) / (2 * hr as int),
                ;
                assert((2 * x + 1) * hl >= nl) by (nonlinear_arith)
                    requires
                        2 * hl * (xs as int) >= nl - hl,
                        x >= xs,
                        hl >= 1,
                ;
                assert((2 * x + 1) * hr <= nr - 1) by (nonlinear_arith)
                    requires
                        2 * hr * (xe as int) <= nr - 1 - hr,
                        x <= xe,
                        hr >= 1,
                ;
                lemma_mul_bound(nl as int, SPAN_NUM_LIMIT as int, hr as int, 2
                    * TRI_COORD_LIMIT as int);
                lemma_mul_bound(nr as int, SPAN_NUM_LIMIT as int, hl as int, 2
                    * TRI_COORD_LIMIT as int);
                assert(-0x80_0000_0000 <= (2 * x as int + 1) * hl <= 0x80_0000_0000 && -0x800_0000_0000
                    <= (2 * x as int + 1) * hl - nl <= 0x800_0000_0000 && -0x4000_0000_0000_0000
                    <= ((2 * x as int + 1) * hl - nl) * hr <= 0x4000_0000_0000_0000)
                    by (nonlinear_arith)
                    requires
                        -0x40000 <= x <= 0x40000,
                        1 <= hl <= 0x80000,
                        1 <= hr <= 0x80000,
                        -0x400_0000_0000 <= nl <= 0x400_0000_0000,
                ;
            }
            let dent = nr * hl - nl * hr;
            let first = (2 * x + 1) * hl - nl;
            let num_t = first * hr;
            proof {
                assert(num_t >= 0) by (nonlinear_arith)
                    requires
                        first >= 0,
                        hr >= 1,
                        num_t == first * hr,
                ;
                assert(num_t <= dent - hl) by (nonlinear_arith)
                    requires
                        (2 * x as int + 1) * hr <= nr - 1,
                        num_t == ((2 * x as int + 1) * hl - nl) * hr,
                        dent == nr * hl - nl * hr,
                        hl >= 1,
                        hr >= 1,
                ;
            }
            let c = if dent == 0 {
                cl
            } else {
                proof {
                    lemma_mul_bound(num_t as int, 0x4000_0000_0000_0000, FX_ONE as int,
                        FX_ONE as int);
                    assert(num_t as int * FX_ONE <= dent as int * FX_ONE - 1)
                        by (nonlinear_arith)
                        requires
                            num_t <= dent - 1,
                            FX_ONE >= 1,
                    ;
                    assert(dent as int * FX_ONE - 1 == (FX_ONE - 1) * dent + (dent - 1))
                        by (nonlinear_arith);
                    vstd::arithmetic::div_mod::lemma_div_is_ordered(num_t as int * FX_ONE,
                        dent as int * FX_ONE - 1, dent as int);
                    vstd::arithmetic::div_mod::lemma_fundamental_div_mod_converse(
                        dent as int * FX_ONE - 1, dent as int, FX_ONE - 1 as int, dent - 1);
                    vstd::arithmetic::div_mod::lemma_div_pos_is_pos(num_t as int * FX_ONE,
                        dent as int);
                }
                let tx = div_floor_wide((num_t as i128) * (FX_ONE as i128), dent as i128) as i64;
                lerp_channels(cl, cr, tx, FX_ONE)
            };
            let packed = crate::colors::pack_color(c.0, c.1, c.2, FX_ONE);
            buffer.set_pixel(x as i32, y as i32, packed);
            x = x + 1;
        }
    }

    /// Fill a triangle according to its shading mode, by flat-top /
    /// flat-bottom decomposition around the middle vertex's row.
    /// Exactly the pixels of [`scanline_covered`] change: in Gouraud
    /// mode each to its [`scanline_gouraud_pixel`] color, in every other
    /// mode to the given flat color.  A degenerate triangle (zero
    /// signed area) writes nothing.
    pub fn fill_triangle(
        &self,
        triangle: &crate::triangle::Triangle,
        buffer: &mut FrameBuffer,
        color: u32,
    )
        requires
            triangle.wf(),
            old(buffer).wf(),
        ensures
            final(buffer).wf(),
            final(buffer).spec_width() == old(buffer).spec_width(),
            final(buffer).spec_height() == old(buffer).spec_height(),
            forall|xi: int, yi: int|
                old(buffer).in_bounds(xi, yi) ==> final(buffer).pix(xi, yi) == (if
                    scanline_covered(
                    triangle.points[0],
                    triangle.points[1],
                    triangle.points[2],
                    xi,
                    yi,
                ) {
                    if triangle.shading_mode == crate::triangle::ShadingMode::Gouraud {
                        scanline_gouraud_pixel(
                            triangle.points[0],
                            triangle.points[1],
                            triangle.points[2],
                            unpacked_c(triangle.vertex_colors.unwrap()[0]),
                            unpacked_c(triangle.vertex_colors.unwrap()[1]),
                            unpacked_c(triangle.vertex_colors.unwrap()[2]),
                            xi,
                            yi,
                        )
                    } else {
                        color
                    }
                } else {
                    old(buffer).pix(xi, yi)
                }),
    {
        proof {
            assert(triangle.points[0].bounded(TRI_COORD_LIMIT));
            assert(triangle.points[1].bounded(TRI_COORD_LIMIT));
            assert(triangle.points[2].bounded(TRI_COORD_LIMIT));
        }
        let mut a = triangle.points[0];
        let mut b = triangle.points[1];
        let mut c = triangle.points[2];
        let area = crate::math::utils::triangle_area(a, b, c);
        if area == 0 {
            return ;
        }
        match triangle.shading_mode {
            crate::triangle::ShadingMode::Gouraud => {
                match triangle.vertex_colors {
                    Some(vc) => {
                        let mut ca = crate::colors::unpack_color(vc[0]);
                        let mut cb = crate::colors::unpack_color(vc[1]);
                        let mut cc = crate::colors::unpack_color(vc[2]);
                        Self::sort_vertices_with_colors(&mut a, &mut b, &mut c, &mut ca,
                            &mut cb, &mut cc);
                        Self::fill_flat_bottom_gouraud(a, b, c, ca, cb, cc, buffer);
                        Self::fill_flat_top_gouraud(b, a, c, cb, ca, cc, buffer);
                    },
                    None => {
                        proof {
                            assert(false);
                        }
                    },
                }
            },
            _ => {
                Self::sort_vertices(&mut a, &mut b, &mut c);
                Self::fill_flat_bottom_solid(a, b, c, buffer, color);
                Self::fill_flat_top_solid(b, a, c, buffer, color);
            },
        }
    }
}

impl Default for ScanlineRasterizer {
    /// The rasterizer has no state; the default value is the rasterizer.
    fn default() -> (r: ScanlineRasterizer)
    {
        ScanlineRasterizer {  }
    }
}

} // verus!
