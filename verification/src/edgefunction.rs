//! Edge-function triangle rasterization.
//!
//! Every pixel center inside the triangle's bounding box is tested
//! against the triangle's three edges; a pixel is covered exactly when
//! all three edge functions share the sign of the triangle's signed area,
//! which makes the test agnostic to winding order.  Covered pixels get
//! their barycentric weights and are handed to a [`PixelShader`].
//!
//! Pixel centers sit at half-integer coordinates, so all edge functions
//! are evaluated on a doubled grid where the center of pixel `(x, y)` is
//! the lattice point `(2x + 1, 2y + 1)`; every value is exact.
//!
//! A pixel center that lies exactly on an edge must belong to exactly one
//! of the two triangles sharing that edge.  The crate uses the top-left
//! fill convention: with the top-left origin (`y` grows downward) and the
//! edge directed so that the triangle's interior lies on its positive
//! side, a zero-weight pixel counts as covered only when the edge points
//! downward (a left edge) or is horizontal and points in the negative
//! `x` direction (a top edge).  See [`owns_boundary`].

use vstd::prelude::*;

verus! {

use crate::colors::pack_rgba;
use crate::fixed::lemma_mul_bound;
use crate::fixed::FX_ONE;
use crate::framebuffer::FrameBuffer;
use crate::math::utils::edge_value;
use crate::math::utils::lemma_edge_sum;
use crate::math::utils::lemma_partition_of_unity;
use crate::math::utils::ratio_fx;
use crate::math::utils::scaled_ratio;
use crate::math::vec2::Vec2;
use crate::shader::unpacked_rgb;
use crate::shader::valid_lambdas;
use crate::shader::weighted;
use crate::shader::FlatShader;
use crate::shader::GouraudShader;
use crate::shader::PixelShader;
use crate::triangle::ShadingMode;
use crate::triangle::Triangle;
use crate::triangle::TRI_COORD_LIMIT;
use vstd::arithmetic::div_mod::lemma_div_pos_is_pos;
use vstd::math::max;
use vstd::math::min;

/// The smaller of three values.
pub open spec fn min3(a: int, b: int, c: int) -> int {
    min(min(a, b), c)
}

/// The larger of three values.
pub open spec fn max3(a: int, b: int, c: int) -> int {
    max(max(a, b), c)
}

/// The edge function of the directed edge `(a -> b)` evaluated at the
/// center of pixel `(x, y)`, on the doubled grid.
pub open spec fn edge_at(a: Vec2, b: Vec2, x: int, y: int) -> int {
    edge_value(2 * a.x, 2 * a.y, 2 * b.x, 2 * b.y, 2 * x + 1, 2 * y + 1)
}

/// Twice the triangle's signed area, on the doubled grid (four times the
/// plain signed area): positive for counter-clockwise winding, negative
/// for clockwise, zero for collinear vertices.
pub open spec fn area2(t: Triangle) -> int {
    edge_value(
        2 * t.points[0].x,
        2 * t.points[0].y,
        2 * t.points[1].x,
        2 * t.points[1].y,
        2 * t.points[2].x,
        2 * t.points[2].y,
    )
}

/// The edge weight of pixel `(x, y)` against the edge opposite vertex 0.
pub open spec fn w0_at(t: Triangle, x: int, y: int) -> int {
    edge_at(t.points[1], t.points[2], x, y)
}

/// The edge weight of pixel `(x, y)` against the edge opposite vertex 1.
pub open spec fn w1_at(t: Triangle, x: int, y: int) -> int {
    edge_at(t.points[2], t.points[0], x, y)
}

/// The edge weight of pixel `(x, y)` against the edge opposite vertex 2.
pub open spec fn w2_at(t: Triangle, x: int, y: int) -> int {
    edge_at(t.points[0], t.points[1], x, y)
}

/// The top-left fill convention on an edge direction, given with the
/// triangle's interior on the direction's positive side: a left edge
/// points downward (`dy > 0` with the top-left origin), a top edge is
/// horizontal and points in the negative `x` direction.  A triangle owns
/// the boundary pixels of its top and left edges; its neighbor across
/// the edge sees the opposite direction and rejects them.
pub open spec fn owns_boundary(dx: int, dy: int) -> bool {
    dy > 0 || (dy == 0 && dx < 0)
}

/// One edge's acceptance of a pixel: strictly on the interior side, or
/// exactly on the edge with the edge owning its boundary.  `w` is the
/// edge weight and `(dx, dy)` the edge direction, both oriented so the
/// interior is on the positive side.
pub open spec fn edge_accepts(w: int, dx: int, dy: int) -> bool {
    w > 0 || (w == 0 && owns_boundary(dx, dy))
}

/// The ownership convention assigns every edge to exactly one side: two
/// triangles sharing an edge see it in opposite directions, and exactly
/// one of the two directions owns the boundary — no shared-edge pixel is
/// filled twice, none is dropped by both owners' boundary rule.
pub proof fn lemma_boundary_owned_once(dx: int, dy: int)
    requires
        dx != 0 || dy != 0,
    ensures
        owns_boundary(dx, dy) <==> !owns_boundary(-dx, -dy),
{
}

/// The coverage test: the triangle is not degenerate, and each of the
/// three edge weights of the pixel's center is strictly on the interior
/// side of its edge, or on the edge itself when the top-left convention
/// assigns the boundary to this triangle.  The weights and directions
/// are normalized by the area's sign, which makes the test agnostic to
/// winding order.
pub open spec fn covered_point(t: Triangle, x: int, y: int) -> bool {
    let a = area2(t);
    let p0 = t.points[0];
    let p1 = t.points[1];
    let p2 = t.points[2];
    &&& a != 0
    &&& (if a > 0 {
        &&& edge_accepts(w0_at(t, x, y), p2.x - p1.x, p2.y - p1.y)
        &&& edge_accepts(w1_at(t, x, y), p0.x - p2.x, p0.y - p2.y)
        &&& edge_accepts(w2_at(t, x, y), p1.x - p0.x, p1.y - p0.y)
    } else {
        &&& edge_accepts(-w0_at(t, x, y), p1.x - p2.x, p1.y - p2.y)
        &&& edge_accepts(-w1_at(t, x, y), p2.x - p0.x, p2.y - p0.y)
        &&& edge_accepts(-w2_at(t, x, y), p0.x - p1.x, p0.y - p1.y)
    })
}

/// The triangle's integer bounding box, clamped to a `w` by `h` buffer,
/// contains pixel `(x, y)`.
pub open spec fn bbox_contains(t: Triangle, w: int, h: int, x: int, y: int) -> bool {
    let xs = max(min3(t.points[0].x as int, t.points[1].x as int, t.points[2].x as int), 0);
    let xe = min(max3(t.points[0].x as int, t.points[1].x as int, t.points[2].x as int), w - 1);
    let ys = max(min3(t.points[0].y as int, t.points[1].y as int, t.points[2].y as int), 0);
    let ye = min(max3(t.points[0].y as int, t.points[1].y as int, t.points[2].y as int), h - 1);
    xs <= x <= xe && ys <= y <= ye
}

/// A pixel the rasterizer fills: inside the clamped bounding box and
/// covered by the triangle.
pub open spec fn filled(t: Triangle, w: int, h: int, x: int, y: int) -> bool {
    bbox_contains(t, w, h, x, y) && covered_point(t, x, y)
}

/// The fixed-point barycentric weight of vertex 0 at pixel `(x, y)`.
pub open spec fn l0_at(t: Triangle, x: int, y: int) -> int {
    ratio_fx(w0_at(t, x, y), area2(t))
}

/// The fixed-point barycentric weight of vertex 1 at pixel `(x, y)`.
pub open spec fn l1_at(t: Triangle, x: int, y: int) -> int {
    ratio_fx(w1_at(t, x, y), area2(t))
}

/// The fixed-point barycentric weight of vertex 2 at pixel `(x, y)`.
pub open spec fn l2_at(t: Triangle, x: int, y: int) -> int {
    ratio_fx(w2_at(t, x, y), area2(t))
}

/// The Gouraud color of a covered pixel: the triangle's unpacked vertex
/// colors combined by the pixel's barycentric weights, repacked at full
/// alpha.
pub open spec fn gouraud_pixel(t: Triangle, x: int, y: int) -> u32 {
    let vc = t.vertex_colors.unwrap();
    let (r0, g0, b0) = unpacked_rgb(vc[0]);
    let (r1, g1, b1) = unpacked_rgb(vc[1]);
    let (r2, g2, b2) = unpacked_rgb(vc[2]);
    let l0 = l0_at(t, x, y);
    let l1 = l1_at(t, x, y);
    let l2 = l2_at(t, x, y);
    pack_rgba(
        weighted(r0, r1, r2, l0, l1, l2),
        weighted(g0, g1, g2, l0, l1, l2),
        weighted(b0, b1, b2, l0, l1, l2),
        FX_ONE as int,
    )
}

/// The color [`EdgeFunctionRasterizer::fill_triangle`] writes to a
/// filled pixel: the Gouraud combination when the triangle asks for it,
/// the flat fill color otherwise.
pub open spec fn mode_pixel(t: Triangle, color: u32, x: int, y: int) -> u32 {
    if t.shading_mode == ShadingMode::Gouraud {
        gouraud_pixel(t, x, y)
    } else {
        color
    }
}

/// The triangle with its winding order reversed: the same three vertices,
/// visited in the opposite direction.
pub open spec fn reversed(t: Triangle) -> Triangle {
    Triangle { points: [t.points[2], t.points[1], t.points[0]], ..t }
}

/// Swapping any two vertices of a triangle negates its signed area.
proof fn lemma_area_antisymmetry(ax: int, ay: int, bx: int, by: int, cx: int, cy: int)
    by (nonlinear_arith)
    ensures
        edge_value(cx, cy, bx, by, ax, ay) == -edge_value(ax, ay, bx, by, cx, cy),
{
}

/// Area-sign invariance under winding reversal: reversing the vertex
/// order flips the sign of the signed area but covers exactly the same
/// pixels.
pub proof fn lemma_winding_reversal(t: Triangle, x: int, y: int)
    ensures
        area2(reversed(t)) == -area2(t),
        covered_point(reversed(t), x, y) == covered_point(t, x, y),
{
    let r = reversed(t);
    lemma_area_antisymmetry(2 * t.points[0].x, 2 * t.points[0].y, 2 * t.points[1].x, 2
        * t.points[1].y, 2 * t.points[2].x, 2 * t.points[2].y);
    crate::math::utils::lemma_edge_antisymmetry(2 * t.points[1].x, 2 * t.points[1].y, 2
        * t.points[2].x, 2 * t.points[2].y, 2 * x + 1, 2 * y + 1);
    crate::math::utils::lemma_edge_antisymmetry(2 * t.points[2].x, 2 * t.points[2].y, 2
        * t.points[0].x, 2 * t.points[0].y, 2 * x + 1, 2 * y + 1);
    crate::math::utils::lemma_edge_antisymmetry(2 * t.points[0].x, 2 * t.points[0].y, 2
        * t.points[1].x, 2 * t.points[1].y, 2 * x + 1, 2 * y + 1);
    assert(w0_at(r, x, y) == -w2_at(t, x, y));
    assert(w1_at(r, x, y) == -w1_at(t, x, y));
    assert(w2_at(r, x, y) == -w0_at(t, x, y));
}

/// A degenerate triangle — all three vertices collinear, zero area —
/// covers no pixel at all.
pub proof fn lemma_degenerate_covers_nothing(t: Triangle, x: int, y: int)
    requires
        area2(t) == 0,
    ensures
        !covered_point(t, x, y),
{
}

/// A triangle entirely outside the buffer fills no pixel: its clamped
/// bounding box is empty.
pub proof fn lemma_outside_buffer_fills_nothing(t: Triangle, w: int, h: int, x: int, y: int)
    requires
        max3(t.points[0].x as int, t.points[1].x as int, t.points[2].x as int) < 0 || min3(
            t.points[0].x as int,
            t.points[1].x as int,
            t.points[2].x as int,
        ) > w - 1 || max3(t.points[0].y as int, t.points[1].y as int, t.points[2].y as int) < 0
            || min3(t.points[0].y as int, t.points[1].y as int, t.points[2].y as int) > h - 1,
    ensures
        !filled(t, w, h, x, y),
{
}

/// The three edge weights of any pixel sum exactly to the signed area,
/// so for a covered pixel of a non-degenerate triangle the fixed-point
/// barycentric weights are nonnegative and sum to `FX_ONE` up to the
/// three floors — the partition of unity.
pub proof fn lemma_lambda_partition_of_unity(t: Triangle, x: int, y: int)
    requires
        covered_point(t, x, y),
    ensures
        w0_at(t, x, y) + w1_at(t, x, y) + w2_at(t, x, y) == area2(t),
        0 <= l0_at(t, x, y),
        0 <= l1_at(t, x, y),
        0 <= l2_at(t, x, y),
        FX_ONE - 2 <= l0_at(t, x, y) + l1_at(t, x, y) + l2_at(t, x, y) <= FX_ONE,
{
    lemma_edge_sum(
        2 * t.points[0].x as int,
        2 * t.points[0].y as int,
        2 * t.points[1].x as int,
        2 * t.points[1].y as int,
        2 * t.points[2].x as int,
        2 * t.points[2].y as int,
        2 * x + 1,
        2 * y + 1,
    );
    lemma_partition_of_unity(w0_at(t, x, y), w1_at(t, x, y), w2_at(t, x, y), area2(t));
    let a = area2(t);
    if a > 0 {
        lemma_div_pos_is_pos(w0_at(t, x, y) * (FX_ONE as int), a);
        lemma_div_pos_is_pos(w1_at(t, x, y) * (FX_ONE as int), a);
        lemma_div_pos_is_pos(w2_at(t, x, y) * (FX_ONE as int), a);
    } else {
        lemma_div_pos_is_pos(-w0_at(t, x, y) * (FX_ONE as int), -a);
        lemma_div_pos_is_pos(-w1_at(t, x, y) * (FX_ONE as int), -a);
        lemma_div_pos_is_pos(-w2_at(t, x, y) * (FX_ONE as int), -a);
    }
}

/// The fixed-point barycentric weights of a covered pixel are valid
/// shader inputs.
pub proof fn lemma_lambdas_valid(t: Triangle, x: int, y: int)
    requires
        covered_point(t, x, y),
    ensures
        valid_lambdas(l0_at(t, x, y), l1_at(t, x, y), l2_at(t, x, y)),
{
    lemma_lambda_partition_of_unity(t, x, y);
}

/// One edge's acceptance test, as [`edge_accepts`] states.
fn accepts(w: i64, dx: i64, dy: i64) -> (b: bool)
    ensures
        b == edge_accepts(w as int, dx as int, dy as int),
{
    w > 0 || (w == 0 && (dy > 0 || (dy == 0 && dx < 0)))
}

/// The smaller of three coordinates.
fn min3e(a: i64, b: i64, c: i64) -> (m: i64)
    ensures
        m == min3(a as int, b as int, c as int),
{
    let ab = if a < b {
        a
    } else {
        b
    };
    if ab < c {
        ab
    } else {
        c
    }
}

/// The larger of three coordinates.
fn max3e(a: i64, b: i64, c: i64) -> (m: i64)
    ensures
        m == max3(a as int, b as int, c as int),
{
    let ab = if a > b {
        a
    } else {
        b
    };
    if ab > c {
        ab
    } else {
        c
    }
}

/// Evaluate the edge function of `(a -> b)` at the center of pixel
/// `(x, y)`, exactly, on the doubled grid.
fn edge_at_center(a: Vec2, b: Vec2, x: i64, y: i64) -> (e: i64)
    requires
        a.bounded(TRI_COORD_LIMIT),
        b.bounded(TRI_COORD_LIMIT),
        -TRI_COORD_LIMIT <= x <= TRI_COORD_LIMIT,
        -TRI_COORD_LIMIT <= y <= TRI_COORD_LIMIT,
    ensures
        e == edge_at(a, b, x as int, y as int),
        -24 * crate::math::utils::PIXEL_LIMIT * crate::math::utils::PIXEL_LIMIT <= e <= 24
            * crate::math::utils::PIXEL_LIMIT * crate::math::utils::PIXEL_LIMIT,
{
    let dx1 = 2 * x + 1 - 2 * a.x;
    let dy1 = 2 * b.y - 2 * a.y;
    let dy2 = 2 * y + 1 - 2 * a.y;
    let dx2 = 2 * b.x - 2 * a.x;
    proof {
        lemma_mul_bound(dx1 as int, 0x20_0000, dy1 as int, 0x20_0000);
        lemma_mul_bound(dy2 as int, 0x20_0000, dx2 as int, 0x20_0000);
    }
    dx1 * dy1 - dy2 * dx2
}

/// Twice the signed area of the triangle on the doubled grid.
fn doubled_area(t: &Triangle) -> (a: i64)
    requires
        t.wf(),
    ensures
        a == area2(*t),
        -24 * crate::math::utils::PIXEL_LIMIT * crate::math::utils::PIXEL_LIMIT <= a <= 24
            * crate::math::utils::PIXEL_LIMIT * crate::math::utils::PIXEL_LIMIT,
{
    proof {
        assert(t.points[0].bounded(TRI_COORD_LIMIT));
        assert(t.points[1].bounded(TRI_COORD_LIMIT));
        assert(t.points[2].bounded(TRI_COORD_LIMIT));
    }
    let v0 = t.points[0];
    let v1 = t.points[1];
    let v2 = t.points[2];
    let dx1 = 2 * v2.x - 2 * v0.x;
    let dy1 = 2 * v1.y - 2 * v0.y;
    let dy2 = 2 * v2.y - 2 * v0.y;
    let dx2 = 2 * v1.x - 2 * v0.x;
    proof {
        lemma_mul_bound(dx1 as int, 0x20_0000, dy1 as int, 0x20_0000);
        lemma_mul_bound(dy2 as int, 0x20_0000, dx2 as int, 0x20_0000);
    }
    dx1 * dy1 - dy2 * dx2
}

/// Triangle rasterizer using the edge-function algorithm: simple,
/// winding-order agnostic, and independent per pixel, at the cost of
/// testing every pixel of the bounding box.
pub struct EdgeFunctionRasterizer;

impl EdgeFunctionRasterizer {
    /// Create an edge-function rasterizer.
    pub fn new() -> (r: EdgeFunctionRasterizer)
    {
        EdgeFunctionRasterizer {  }
    }

    /// Fill a triangle through an arbitrary pixel shader: every pixel of
    /// the clamped bounding box whose center passes the coverage test is
    /// set to the shader's color for that pixel's barycentric weights;
    /// every other pixel keeps its old color.  A degenerate triangle
    /// covers nothing and the buffer is untouched.
    pub fn fill_triangle_with_shader<S: PixelShader>(
        &self,
        triangle: &Triangle,
        buffer: &mut FrameBuffer,
        shader: &S,
    )
        requires
            triangle.wf(),
            old(buffer).wf(),
            shader.wf(),
        ensures
            final(buffer).wf(),
            final(buffer).spec_width() == old(buffer).spec_width(),
            final(buffer).spec_height() == old(buffer).spec_height(),
            forall|xi: int, yi: int|
                old(buffer).in_bounds(xi, yi) ==> final(buffer).pix(xi, yi) == (if filled(
                    *triangle,
                    old(buffer).spec_width() as int,
                    old(buffer).spec_height() as int,
                    xi,
                    yi,
                ) {
                    shader.shade_spec(
                        l0_at(*triangle, xi, yi),
                        l1_at(*triangle, xi, yi),
                        l2_at(*triangle, xi, yi),
                    )
                } else {
                    old(buffer).pix(xi, yi)
                }),
    {
        let ghost t = *triangle;
        let ghost bw = buffer.spec_width() as int;
        let ghost bh = buffer.spec_height() as int;
        proof {
            assert(triangle.points[0].bounded(TRI_COORD_LIMIT));
            assert(triangle.points[1].bounded(TRI_COORD_LIMIT));
            assert(triangle.points[2].bounded(TRI_COORD_LIMIT));
        }
        let v0 = triangle.points[0];
        let v1 = triangle.points[1];
        let v2 = triangle.points[2];
        let area = doubled_area(triangle);
        if area == 0 {
            return ;
        }
        let min_x = min3e(v0.x, v1.x, v2.x);
        let max_x = max3e(v0.x, v1.x, v2.x);
        let min_y = min3e(v0.y, v1.y, v2.y);
        let max_y = max3e(v0.y, v1.y, v2.y);
        let xs: i64 = if min_x < 0 {
            0
        } else {
            min_x
        };
        let xe: i64 = if max_x > buffer.width() as i64 - 1 {
            buffer.width() as i64 - 1
        } else {
            max_x
        };
        let ys: i64 = if min_y < 0 {
            0
        } else {
            min_y
        };
        let ye: i64 = if max_y > buffer.height() as i64 - 1 {
            buffer.height() as i64 - 1
        } else {
            max_y
        };
        if xs > xe || ys > ye {
            return ;
        }
        let mut y: i64 = ys;
        while y <= ye
            invariant
                triangle.wf(),
                shader.wf(),
                t == *triangle,
                buffer.wf(),
                buffer.spec_width() == old(buffer).spec_width(),
                buffer.spec_height() == old(buffer).spec_height(),
                bw == old(buffer).spec_width() as int,
                bh == old(buffer).spec_height() as int,
                area == area2(t),
                area != 0,
                -24 * crate::math::utils::PIXEL_LIMIT * crate::math::utils::PIXEL_LIMIT <= area
                    <= 24 * crate::math::utils::PIXEL_LIMIT * crate::math::utils::PIXEL_LIMIT,
                v0 == t.points[0],
                v1 == t.points[1],
                v2 == t.points[2],
                xs == max(min3(t.points[0].x as int, t.points[1].x as int,
                    t.points[2].x as int), 0),
                xe == min(max3(t.points[0].x as int, t.points[1].x as int,
                    t.points[2].x as int), bw - 1),
                ys == max(min3(t.points[0].y as int, t.points[1].y as int,
                    t.points[2].y as int), 0),
                ye == min(max3(t.points[0].y as int, t.points[1].y as int,
                    t.points[2].y as int), bh - 1),
                0 <= xs <= xe < bw,
                0 <= ys <= y <= ye + 1,
                ye < bh,
                forall|xi: int, yi: int|
                    old(buffer).in_bounds(xi, yi) ==> buffer.pix(xi, yi) == (if filled(
                        t,
                        bw,
                        bh,
                        xi,
                        yi,
                    ) && yi < y {
                        shader.shade_spec(l0_at(t, xi, yi), l1_at(t, xi, yi), l2_at(t, xi, yi))
                    } else {
                        old(buffer).pix(xi, yi)
                    }),
            decreases ye - y + 1,
        {
            let mut x: i64 = xs;
            while x <= xe
                invariant
                    triangle.wf(),
                    shader.wf(),
                    t == *triangle,
                    buffer.wf(),
                    buffer.spec_width() == old(buffer).spec_width(),
                    buffer.spec_height() == old(buffer).spec_height(),
                    bw == old(buffer).spec_width() as int,
                    bh == old(buffer).spec_height() as int,
                    area == area2(t),
                    area != 0,
                    -24 * crate::math::utils::PIXEL_LIMIT * crate::math::utils::PIXEL_LIMIT
                        <= area <= 24 * crate::math::utils::PIXEL_LIMIT
                        * crate::math::utils::PIXEL_LIMIT,
                    v0 == t.points[0],
                    v1 == t.points[1],
                    v2 == t.points[2],
                    xs == max(min3(t.points[0].x as int, t.points[1].x as int,
                        t.points[2].x as int), 0),
                    xe == min(max3(t.points[0].x as int, t.points[1].x as int,
                        t.points[2].x as int), bw - 1),
                    ys == max(min3(t.points[0].y as int, t.points[1].y as int,
                        t.points[2].y as int), 0),
                    ye == min(max3(t.points[0].y as int, t.points[1].y as int,
                        t.points[2].y as int), bh - 1),
                    0 <= xs <= x <= xe + 1,
                    xe < bw,
                    0 <= ys <= y <= ye,
                    ye < bh,
                    forall|xi: int, yi: int|
                        old(buffer).in_bounds(xi, yi) ==> buffer.pix(xi, yi) == (if filled(
                            t,
                            bw,
                            bh,
                            xi,
                            yi,
                        ) && (yi < y || (yi == y && xi < x)) {
                            shader.shade_spec(l0_at(t, xi, yi), l1_at(t, xi, yi), l2_at(
                                t,
                                xi,
                                yi,
                            ))
                        } else {
                            old(buffer).pix(xi, yi)
                        }),
                decreases xe - x + 1,
            {
                let w0 = edge_at_center(v1, v2, x, y);
                let w1 = edge_at_center(v2, v0, x, y);
                let w2 = edge_at_center(v0, v1, x, y);
                let inside = if area > 0 {
                    accepts(w0, v2.x - v1.x, v2.y - v1.y) && accepts(w1, v0.x - v2.x, v0.y
                        - v2.y) && accepts(w2, v1.x - v0.x, v1.y - v0.y)
                } else {
                    accepts(-w0, v1.x - v2.x, v1.y - v2.y) && accepts(-w1, v2.x - v0.x, v2.y
                        - v0.y) && accepts(-w2, v0.x - v1.x, v0.y - v1.y)
                };
                proof {
                    assert(inside == covered_point(t, x as int, y as int));
                }
                if inside {
                    proof {
                        lemma_lambdas_valid(t, x as int, y as int);
                    }
                    let l0 = scaled_ratio(w0, area);
                    let l1 = scaled_ratio(w1, area);
                    let l2 = scaled_ratio(w2, area);
                    let c = shader.shade(l0, l1, l2);
                    buffer.set_pixel(x as i32, y as i32, c);
                }
                x = x + 1;
            }
            y = y + 1;
        }
    }

    /// Fill a triangle according to its shading mode: Gouraud shading
    /// interpolates the triangle's vertex colors, every other mode fills
    /// with the given flat color.  Exactly the pixels of
    /// [`filled`] change, to [`mode_pixel`]; a degenerate triangle
    /// leaves the buffer untouched.
    pub fn fill_triangle(&self, triangle: &Triangle, buffer: &mut FrameBuffer, color: u32)
        requires
            triangle.wf(),
            old(buffer).wf(),
        ensures
            final(buffer).wf(),
            final(buffer).spec_width() == old(buffer).spec_width(),
            final(buffer).spec_height() == old(buffer).spec_height(),
            forall|xi: int, yi: int|
                old(buffer).in_bounds(xi, yi) ==> final(buffer).pix(xi, yi) == (if filled(
                    *triangle,
                    old(buffer).spec_width() as int,
                    old(buffer).spec_height() as int,
                    xi,
                    yi,
                ) {
                    mode_pixel(*triangle, color, xi, yi)
                } else {
                    old(buffer).pix(xi, yi)
                }),
    {
        match triangle.shading_mode {
            ShadingMode::Gouraud => {
                match triangle.vertex_colors {
                    Some(vc) => {
                        let shader = GouraudShader::new(vc);
                        self.fill_triangle_with_shader(triangle, buffer, &shader);
                        proof {
                            assert forall|xi: int, yi: int|
                                shader.shade_spec(l0_at(*triangle, xi, yi), l1_at(
                                    *triangle,
                                    xi,
                                    yi,
                                ), l2_at(*triangle, xi, yi)) == gouraud_pixel(
                                *triangle,
                                xi,
                                yi,
                            ) by {
                                assert(shader.spec_color(0) == {
                                    let (r, g, b) = unpacked_rgb(vc[0]);
                                    (r as i64, g as i64, b as i64)
                                });
                                assert(shader.spec_color(1) == {
                                    let (r, g, b) = unpacked_rgb(vc[1]);
                                    (r as i64, g as i64, b as i64)
                                });
                                assert(shader.spec_color(2) == {
                                    let (r, g, b) = unpacked_rgb(vc[2]);
                                    (r as i64, g as i64, b as i64)
                                });
                            }
                        }
                    },
                    None => {
                        proof {
                            assert(false);
                        }
                    },
                }
            },
            _ => {
                let shader = FlatShader::new(color);
                self.fill_triangle_with_shader(triangle, buffer, &shader);
            },
        }
    }
}

impl Default for EdgeFunctionRasterizer {
    /// The rasterizer has no state; the default value is the rasterizer.
    fn default() -> (r: EdgeFunctionRasterizer)
    {
        EdgeFunctionRasterizer {  }
    }
}

} // verus!
