//! The screen-space triangle record consumed by the rasterizers.

use vstd::prelude::*;

verus! {

use crate::fixed::FX_ONE;
use crate::math::vec2::Vec2;

/// Magnitude bound on a triangle's vertex coordinates; a quarter-million
/// pixels on a side, which keeps every rasterizer intermediate inside
/// `i64`.
pub const TRI_COORD_LIMIT: i64 = 0x4_0000;

/// Largest perspective divisor a triangle may carry (at scale `FX_ONE`).
pub const W_LIMIT: i64 = 0x1_0000_0000;

/// How a triangle's pixels get their color.
#[derive(Clone, Copy, Debug, PartialEq, Eq, Structural)]
pub enum ShadingMode {
    /// No shading requested; filled like `Flat` with the given color.
    Unshaded,
    /// One constant color for the whole triangle.
    Flat,
    /// Per-vertex colors, interpolated across the triangle.
    Gouraud,
}

/// A triangle ready for rasterization in screen space.
///
/// Positions are whole pixels; `ws` carries the per-vertex perspective
/// divisors at scale `FX_ONE` (used only by the perspective-correct
/// shaders); `avg_depth` is the average view-space depth at scale
/// `FX_ONE`, used only for back-to-front sorting.
#[derive(Clone, Copy, Debug)]
pub struct Triangle {
    /// The three vertices, in winding order.
    pub points: [Vec2; 3],
    /// Per-vertex perspective divisors at scale `FX_ONE`.
    pub ws: [i64; 3],
    /// The flat fill color (ARGB8888).
    pub color: u32,
    /// How the rasterizer colors covered pixels.
    pub shading_mode: ShadingMode,
    /// Packed per-vertex colors; present exactly when the shading mode is
    /// `Gouraud`.
    pub vertex_colors: Option<[u32; 3]>,
    /// Per-vertex texture coordinates at scale `FX_ONE`, when textured.
    pub uvs: Option<[Vec2; 3]>,
    /// Average view-space depth at scale `FX_ONE`.
    pub avg_depth: i64,
}

impl Triangle {
    /// Well-formedness: vertices lie within [`TRI_COORD_LIMIT`], the
    /// perspective divisors are positive and bounded, and per-vertex
    /// colors are present exactly when Gouraud shading asks for them.
    pub open spec fn wf(&self) -> bool {
        &&& forall|i: int| 0 <= i < 3 ==> (#[trigger] self.points[i]).bounded(TRI_COORD_LIMIT)
        &&& forall|i: int| 0 <= i < 3 ==> 1 <= #[trigger] self.ws[i] <= W_LIMIT
        &&& (self.shading_mode == ShadingMode::Gouraud <==> self.vertex_colors is Some)
    }

    /// Build a flat triangle from its vertices and fill color; the
    /// perspective divisors default to one and the depth to zero.
    pub fn new(points: [Vec2; 3], color: u32) -> (t: Triangle)
        requires
            forall|i: int| 0 <= i < 3 ==> (#[trigger] points[i]).bounded(TRI_COORD_LIMIT),
        ensures
            t.wf(),
            t.points == points,
            t.color == color,
            t.shading_mode == ShadingMode::Flat,
            t.vertex_colors is None,
            t.uvs is None,
            t.avg_depth == 0,
            forall|i: int| 0 <= i < 3 ==> #[trigger] t.ws[i] == FX_ONE,
    {
        Triangle {
            points,
            ws: [FX_ONE, FX_ONE, FX_ONE],
            color,
            shading_mode: ShadingMode::Flat,
            vertex_colors: None,
            uvs: None,
            avg_depth: 0,
        }
    }
}

} // verus!
