//! Edge functions and barycentric coordinates.
//!
//! The edge function of a directed segment measures which side of the
//! segment a point lies on; it doubles as the signed (twice-)area of a
//! triangle and as the numerator of barycentric coordinates.  Everything
//! here is exact integer arithmetic; barycentric weights come out in
//! fixed-point at scale [`crate::fixed::FX_ONE`], floored.

use vstd::prelude::*;

verus! {

use crate::fixed::div_floor;
use crate::fixed::lemma_mul_bound;
use crate::fixed::FX_ONE;
use crate::math::vec2::Vec2;
use vstd::arithmetic::div_mod::lemma_fundamental_div_mod;

/// Magnitude bound on screen coordinates accepted by the barycentric
/// helpers; a million pixels on a side is far beyond any real target
/// while keeping every intermediate product inside `i64`.
pub const PIXEL_LIMIT: i64 = 0x10_0000;

/// The edge function of the directed edge `(a -> b)` evaluated at `p`:
/// the 2D cross product `(b - a) x (p - a)`.  Positive when `p` lies to
/// the left of the edge, negative to the right, zero exactly on it.
pub open spec fn edge_value(ax: int, ay: int, bx: int, by: int, px: int, py: int) -> int {
    (px - ax) * (by - ay) - (py - ay) * (bx - ax)
}

/// The barycentric weight `w / area` at fixed-point scale `FX_ONE`,
/// floored.  Dividing by a negative area is the same as negating both
/// sides, which keeps the quotient's floor exact.
pub open spec fn ratio_fx(w: int, area: int) -> int {
    if area > 0 {
        w * (FX_ONE as int) / area
    } else {
        (-w) * (FX_ONE as int) / (-area)
    }
}

/// The edge function rewritten relative to the query point: only the
/// offsets of the two endpoints from `p` matter.
proof fn lemma_edge_recentered(ax: int, ay: int, bx: int, by: int, px: int, py: int)
    by (nonlinear_arith)
    ensures
        edge_value(ax, ay, bx, by, px, py) == (ay - py) * (bx - px) - (ax - px) * (by - py),
{
}

/// The three edge functions of a point against a triangle's edges sum to
/// the triangle's own signed area, exactly.
pub proof fn lemma_edge_sum(
    x0: int,
    y0: int,
    x1: int,
    y1: int,
    x2: int,
    y2: int,
    px: int,
    py: int,
)
    ensures
        edge_value(x1, y1, x2, y2, px, py) + edge_value(x2, y2, x0, y0, px, py) + edge_value(
            x0,
            y0,
            x1,
            y1,
            px,
            py,
        ) == edge_value(x0, y0, x1, y1, x2, y2),
{
    let u0 = x0 - px;
    let v0 = y0 - py;
    let u1 = x1 - px;
    let v1 = y1 - py;
    let u2 = x2 - px;
    let v2 = y2 - py;
    lemma_edge_recentered(x1, y1, x2, y2, px, py);
    lemma_edge_recentered(x2, y2, x0, y0, px, py);
    lemma_edge_recentered(x0, y0, x1, y1, px, py);
    assert((v1 * u2 - u1 * v2) + (v2 * u0 - u2 * v0) + (v0 * u1 - u0 * v1) == (u2 - u0) * (v1
        - v0) - (v2 - v0) * (u1 - u0)) by (nonlinear_arith);
    assert(edge_value(x0, y0, x1, y1, x2, y2) == (u2 - u0) * (v1 - v0) - (v2 - v0) * (u1 - u0))
        by (nonlinear_arith)
        requires
            u0 == x0 - px && v0 == y0 - py && u1 == x1 - px && v1 == y1 - py && u2 == x2 - px
                && v2 == y2 - py,
    ;
}

/// Swapping the two endpoints of an edge negates its edge function.
pub proof fn lemma_edge_antisymmetry(ax: int, ay: int, bx: int, by: int, px: int, py: int)
    by (nonlinear_arith)
    ensures
        edge_value(ax, ay, bx, by, px, py) == -edge_value(bx, by, ax, ay, px, py),
{
}

/// Partition of unity for floored barycentric weights: when the three
/// weights sum exactly to the area, the three fixed-point coordinates sum
/// to `FX_ONE` up to the three floors — never more than `FX_ONE`, never
/// less than `FX_ONE - 2`.
pub proof fn lemma_partition_of_unity(w0: int, w1: int, w2: int, area: int)
    requires
        area != 0,
        w0 + w1 + w2 == area,
    ensures
        FX_ONE - 2 <= ratio_fx(w0, area) + ratio_fx(w1, area) + ratio_fx(w2, area) <= FX_ONE,
{
    let one = FX_ONE as int;
    let d = if area > 0 {
        area
    } else {
        -area
    };
    let a0 = if area > 0 {
        w0 * one
    } else {
        (-w0) * one
    };
    let a1 = if area > 0 {
        w1 * one
    } else {
        (-w1) * one
    };
    let a2 = if area > 0 {
        w2 * one
    } else {
        (-w2) * one
    };
    assert(a0 + a1 + a2 == d * one) by (nonlinear_arith)
        requires
            w0 + w1 + w2 == area,
            (area > 0 ==> d == area && a0 == w0 * one && a1 == w1 * one && a2 == w2 * one),
            (area <= 0 ==> d == -area && a0 == (-w0) * one && a1 == (-w1) * one && a2 == (-w2)
                * one),
    ;
    lemma_fundamental_div_mod(a0, d);
    lemma_fundamental_div_mod(a1, d);
    lemma_fundamental_div_mod(a2, d);
    let q0 = a0 / d;
    let q1 = a1 / d;
    let q2 = a2 / d;
    let r0 = a0 % d;
    let r1 = a1 % d;
    let r2 = a2 % d;
    assert(one - 2 <= q0 + q1 + q2 <= one) by (nonlinear_arith)
        requires
            d > 0,
            a0 == d * q0 + r0,
            a1 == d * q1 + r1,
            a2 == d * q2 + r2,
            0 <= r0 < d,
            0 <= r1 < d,
            0 <= r2 < d,
            a0 + a1 + a2 == d * one,
    ;
}

/// Compute the edge function value for point `p` relative to the directed
/// edge `(a -> b)`.
pub fn edge_function(a: Vec2, b: Vec2, p: Vec2) -> (e: i64)
    requires
        a.bounded(PIXEL_LIMIT),
        b.bounded(PIXEL_LIMIT),
        p.bounded(PIXEL_LIMIT),
    ensures
        e == edge_value(a.x as int, a.y as int, b.x as int, b.y as int, p.x as int, p.y as int),
        -8 * PIXEL_LIMIT * PIXEL_LIMIT <= e <= 8 * PIXEL_LIMIT * PIXEL_LIMIT,
{
    let dx1 = p.x - a.x;
    let dy1 = b.y - a.y;
    let dx2 = b.x - a.x;
    let dy2 = p.y - a.y;
    proof {
        lemma_mul_bound(dx1 as int, 2 * PIXEL_LIMIT as int, dy1 as int, 2 * PIXEL_LIMIT as int);
        lemma_mul_bound(dy2 as int, 2 * PIXEL_LIMIT as int, dx2 as int, 2 * PIXEL_LIMIT as int);
    }
    dx1 * dy1 - dy2 * dx2
}

/// Compute the signed area (times two) of the triangle `(v0, v1, v2)`:
/// positive for counter-clockwise winding, negative for clockwise, zero
/// for collinear vertices.
pub fn triangle_area(v0: Vec2, v1: Vec2, v2: Vec2) -> (area: i64)
    requires
        v0.bounded(PIXEL_LIMIT),
        v1.bounded(PIXEL_LIMIT),
        v2.bounded(PIXEL_LIMIT),
    ensures
        area == edge_value(
            v0.x as int,
            v0.y as int,
            v1.x as int,
            v1.y as int,
            v2.x as int,
            v2.y as int,
        ),
        -8 * PIXEL_LIMIT * PIXEL_LIMIT <= area <= 8 * PIXEL_LIMIT * PIXEL_LIMIT,
{
    edge_function(v0, v1, v2)
}

/// Compute the fixed-point barycentric coordinates of `p` within the
/// triangle `(v0, v1, v2)`: each weight is the matching edge function
/// divided by the triangle's area, floored at scale `FX_ONE`.  A zero
/// area (degenerate triangle) yields all-zero coordinates instead of a
/// division by zero.  For a nonzero area the three coordinates sum to
/// `FX_ONE` up to the three floors.
pub fn barycentric_coordinates(p: Vec2, v0: Vec2, v1: Vec2, v2: Vec2) -> (l: (i64, i64, i64))
    requires
        p.bounded(PIXEL_LIMIT),
        v0.bounded(PIXEL_LIMIT),
        v1.bounded(PIXEL_LIMIT),
        v2.bounded(PIXEL_LIMIT),
    ensures
        ({
            let w0 = edge_value(v1.x as int, v1.y as int, v2.x as int, v2.y as int, p.x as int,
                p.y as int);
            let w1 = edge_value(v2.x as int, v2.y as int, v0.x as int, v0.y as int, p.x as int,
                p.y as int);
            let w2 = edge_value(v0.x as int, v0.y as int, v1.x as int, v1.y as int, p.x as int,
                p.y as int);
            let area = w0 + w1 + w2;
            if area == 0 {
                l == (0i64, 0i64, 0i64)
            } else {
                l.0 == ratio_fx(w0, area) && l.1 == ratio_fx(w1, area) && l.2 == ratio_fx(
                    w2,
                    area,
                ) && FX_ONE - 2 <= l.0 + l.1 + l.2 <= FX_ONE
            }
        }),
{
    let w0 = edge_function(v1, v2, p);
    let w1 = edge_function(v2, v0, p);
    let w2 = edge_function(v0, v1, p);
    let area = w0 + w1 + w2;
    if area == 0 {
        (0, 0, 0)
    } else {
        proof {
            lemma_partition_of_unity(w0 as int, w1 as int, w2 as int, area as int);
        }
        let l0 = scaled_ratio(w0, area);
        let l1 = scaled_ratio(w1, area);
        let l2 = scaled_ratio(w2, area);
        (l0, l1, l2)
    }
}

/// `w * FX_ONE / area`, floored; the denominator may be negative.
pub(crate) fn scaled_ratio(w: i64, area: i64) -> (q: i64)
    requires
        area != 0,
        -24 * PIXEL_LIMIT * PIXEL_LIMIT <= w <= 24 * PIXEL_LIMIT * PIXEL_LIMIT,
        -24 * PIXEL_LIMIT * PIXEL_LIMIT <= area <= 24 * PIXEL_LIMIT * PIXEL_LIMIT,
    ensures
        q == ratio_fx(w as int, area as int),
{
    proof {
        lemma_mul_bound(w as int, 24 * PIXEL_LIMIT as int * PIXEL_LIMIT as int, FX_ONE as int,
            FX_ONE as int);
    }
    if area > 0 {
        div_floor(w * FX_ONE, area)
    } else {
        div_floor(-w * FX_ONE, -area)
    }
}

} // verus!
