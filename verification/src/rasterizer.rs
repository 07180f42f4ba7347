//! Rasterizer selection: a closed choice between the two fill
//! strategies, made at call time.
//!
//! Exactly two strategies exist — scanline decomposition and
//! edge-function testing — so the selection is a plain two-variant
//! enumeration rather than an open plugin interface.

use vstd::prelude::*;

verus! {

use crate::edgefunction::filled;
use crate::edgefunction::mode_pixel;
use crate::edgefunction::EdgeFunctionRasterizer;
use crate::framebuffer::FrameBuffer;
use crate::scanline::scanline_covered;
use crate::scanline::scanline_gouraud_pixel;
use crate::scanline::unpacked_c;
use crate::scanline::ScanlineRasterizer;
use crate::triangle::ShadingMode;
use crate::triangle::Triangle;

/// Which fill strategy a draw call uses.
#[derive(Clone, Copy, Debug, PartialEq, Eq, Structural)]
pub enum RasterizerType {
    /// Flat-top/flat-bottom scanline decomposition.
    Scanline,
    /// Per-pixel edge-function testing over the bounding box.
    EdgeFunction,
}

/// The color the scanline strategy writes at a covered pixel.
pub open spec fn scanline_mode_pixel(t: Triangle, color: u32, x: int, y: int) -> u32 {
    if t.shading_mode == ShadingMode::Gouraud {
        scanline_gouraud_pixel(
            t.points[0],
            t.points[1],
            t.points[2],
            unpacked_c(t.vertex_colors.unwrap()[0]),
            unpacked_c(t.vertex_colors.unwrap()[1]),
            unpacked_c(t.vertex_colors.unwrap()[2]),
            x,
            y,
        )
    } else {
        color
    }
}

/// Dispatches a fill call to the strategy selected at construction.
pub struct RasterizerDispatcher {
    kind: RasterizerType,
}

impl RasterizerDispatcher {
    /// The selected strategy.
    pub closed spec fn spec_kind(&self) -> RasterizerType {
        self.kind
    }

    /// Select a fill strategy.
    pub fn new(kind: RasterizerType) -> (r: RasterizerDispatcher)
        ensures
            r.spec_kind() == kind,
    {
        RasterizerDispatcher { kind }
    }

    /// The selected strategy, for display or toggling.
    pub fn kind(&self) -> (k: RasterizerType)
        ensures
            k == self.spec_kind(),
    {
        self.kind
    }

    /// Fill a triangle with the selected strategy: the scanline pixels
    /// and colors when `Scanline` was chosen, the edge-function pixels
    /// and colors when `EdgeFunction` was.
    pub fn fill_triangle(&self, triangle: &Triangle, buffer: &mut FrameBuffer, color: u32)
        requires
            triangle.wf(),
            old(buffer).wf(),
        ensures
            final(buffer).wf(),
            final(buffer).spec_width() == old(buffer).spec_width(),
            final(buffer).spec_height() == old(buffer).spec_height(),
            self.spec_kind() == RasterizerType::Scanline ==> forall|xi: int, yi: int|
                old(buffer).in_bounds(xi, yi) ==> final(buffer).pix(xi, yi) == (if
                    scanline_covered(
                    triangle.points[0],
                    triangle.points[1],
                    triangle.points[2],
                    xi,
                    yi,
                ) {
                    scanline_mode_pixel(*triangle, color, xi, yi)
                } else {
                    old(buffer).pix(xi, yi)
                }),
            self.spec_kind() == RasterizerType::EdgeFunction ==> forall|xi: int, yi: int|
                old(buffer).in_bounds(xi, yi) ==> final(buffer).pix(xi, yi) == (if filled(
                    *triangle,
                    old(buffer).spec_width() as int,
                    old(buffer).spec_height() as int,
                    xi,
                    yi,
                ) {
                    mode_pixel(*triangle, color, xi, yi)
                } else {
                    old(buffer).pix(xi, yi)
                }),
    {
        match self.kind {
            RasterizerType::Scanline => {
                ScanlineRasterizer::new().fill_triangle(triangle, buffer, color);
            },
            RasterizerType::EdgeFunction => {
                EdgeFunctionRasterizer::new().fill_triangle(triangle, buffer, color);
            },
        }
    }
}

} // verus!
