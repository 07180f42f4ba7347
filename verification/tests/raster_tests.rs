use russsty::edgefunction::EdgeFunctionRasterizer;
use russsty::math::utils::{barycentric_coordinates, edge_function, triangle_area};
use russsty::fixed::FX_ONE;
use russsty::framebuffer::FrameBuffer;
use russsty::math::vec2::Vec2;
use russsty::scanline::ScanlineRasterizer;
use russsty::rasterizer::{RasterizerDispatcher, RasterizerType};
use russsty::triangle::{ShadingMode, Triangle};

const RED: u32 = 0xFFFF0000;

fn tri(p0: (i64, i64), p1: (i64, i64), p2: (i64, i64)) -> Triangle {
    Triangle::new(
        [
            Vec2::new(p0.0, p0.1),
            Vec2::new(p1.0, p1.1),
            Vec2::new(p2.0, p2.1),
        ],
        RED,
    )
}

fn buffer_10x10() -> FrameBuffer {
    FrameBuffer::new(vec![0u32; 100], 10, 10)
}

/// The edge function at the center of pixel (x, y), on the doubled grid.
fn edge_at_center(a: (i64, i64), b: (i64, i64), x: i64, y: i64) -> i64 {
    (2 * x + 1 - 2 * a.0) * (2 * b.1 - 2 * a.1) - (2 * y + 1 - 2 * a.1) * (2 * b.0 - 2 * a.0)
}

/// One edge's acceptance under the top-left fill convention.
fn accepts(w: i64, dx: i64, dy: i64) -> bool {
    w > 0 || (w == 0 && (dy > 0 || (dy == 0 && dx < 0)))
}

/// The coverage test the edge-function strategy commits to.
fn center_covered(p0: (i64, i64), p1: (i64, i64), p2: (i64, i64), x: i64, y: i64) -> bool {
    let area = (2 * p2.0 - 2 * p0.0) * (2 * p1.1 - 2 * p0.1)
        - (2 * p2.1 - 2 * p0.1) * (2 * p1.0 - 2 * p0.0);
    let w0 = edge_at_center(p1, p2, x, y);
    let w1 = edge_at_center(p2, p0, x, y);
    let w2 = edge_at_center(p0, p1, x, y);
    if area > 0 {
        accepts(w0, p2.0 - p1.0, p2.1 - p1.1)
            && accepts(w1, p0.0 - p2.0, p0.1 - p2.1)
            && accepts(w2, p1.0 - p0.0, p1.1 - p0.1)
    } else if area < 0 {
        accepts(-w0, p1.0 - p2.0, p1.1 - p2.1)
            && accepts(-w1, p2.0 - p0.0, p2.1 - p0.1)
            && accepts(-w2, p0.0 - p1.0, p0.1 - p1.1)
    } else {
        false
    }
}

#[test]
fn edge_function_fills_right_isosceles_inside_hypotenuse() {
    // 10x10 buffer, triangle (1,1),(8,1),(1,8): the filled pixels are
    // exactly those whose center passes the coverage test — here x >= 1,
    // y >= 1, x + y <= 7 (the hypotenuse pixels' centers lie exactly on
    // the edge, a right edge the top-left convention rejects) — and all
    // of them satisfy x + y <= 9.
    let t = tri((1, 1), (8, 1), (1, 8));
    let mut fb = buffer_10x10();
    EdgeFunctionRasterizer::new().fill_triangle(&t, &mut fb, RED);
    for y in 0..10i64 {
        for x in 0..10i64 {
            let got = fb.get_pixel(x as i32, y as i32).unwrap();
            let expect = if center_covered((1, 1), (8, 1), (1, 8), x, y) {
                RED
            } else {
                0
            };
            assert_eq!(got, expect, "pixel ({x}, {y})");
            if got == RED {
                assert!(x + y <= 9);
            }
        }
    }
    // The interior is really filled.
    assert_eq!(fb.get_pixel(2, 2), Some(RED));
    assert_eq!(fb.get_pixel(1, 1), Some(RED));
    assert_eq!(fb.get_pixel(8, 8), Some(0));
}

#[test]
fn scanline_fills_right_isosceles_inside_hypotenuse() {
    // The scanline strategy samples pixel centers: row y of this
    // triangle spans columns 1 ..= 7 - y, i.e. exactly x + y <= 7 with
    // x, y >= 1 — the same set the edge-function strategy fills, on and
    // inside the hypotenuse line x + y <= 9.
    let t = tri((1, 1), (8, 1), (1, 8));
    let mut fb = buffer_10x10();
    ScanlineRasterizer::new().fill_triangle(&t, &mut fb, RED);
    for y in 0..10i64 {
        for x in 0..10i64 {
            let got = fb.get_pixel(x as i32, y as i32).unwrap();
            let inside = y >= 1 && x >= 1 && x + y <= 7;
            let expect = if inside { RED } else { 0 };
            assert_eq!(got, expect, "pixel ({x}, {y})");
        }
    }
}

#[test]
fn strategies_fill_the_same_pixels() {
    // Cross-strategy agreement for flat shading: both strategies sample
    // pixel centers under the same top-left ownership convention, so
    // they fill the identical set of pixels.
    let t = tri((1, 1), (8, 1), (1, 8));
    let mut fb_edge = buffer_10x10();
    let mut fb_scan = buffer_10x10();
    EdgeFunctionRasterizer::new().fill_triangle(&t, &mut fb_edge, RED);
    ScanlineRasterizer::new().fill_triangle(&t, &mut fb_scan, RED);
    assert_eq!(fb_edge.into_data(), fb_scan.into_data());
}

#[test]
fn strategies_agree_on_every_small_triangle() {
    // Cross-strategy agreement, exhaustively: every triangle with
    // vertices in a 4x4 grid, every winding, on a 6x6 buffer.
    let rast_e = EdgeFunctionRasterizer::new();
    let rast_s = ScanlineRasterizer::new();
    for v0 in 0..16i64 {
        for v1 in 0..16i64 {
            for v2 in 0..16i64 {
                let t = tri(
                    (v0 % 4, v0 / 4),
                    (v1 % 4, v1 / 4),
                    (v2 % 4, v2 / 4),
                );
                let mut fb_e = FrameBuffer::new(vec![0u32; 36], 6, 6);
                let mut fb_s = FrameBuffer::new(vec![0u32; 36], 6, 6);
                rast_e.fill_triangle(&t, &mut fb_e, RED);
                rast_s.fill_triangle(&t, &mut fb_s, RED);
                let (de, ds) = (fb_e.into_data(), fb_s.into_data());
                assert_eq!(
                    de, ds,
                    "strategies disagree on triangle ({},{}) ({},{}) ({},{})",
                    v0 % 4, v0 / 4, v1 % 4, v1 / 4, v2 % 4, v2 / 4
                );
            }
        }
    }
}

#[test]
fn shared_edge_pixels_are_filled_exactly_once() {
    // Two triangles splitting a square along the diagonal (2,0)-(0,2):
    // every pixel is written by exactly one of them, including those
    // whose centers lie on the shared edge.
    let t1 = tri((0, 0), (2, 0), (0, 2));
    let t2 = tri((2, 0), (2, 2), (0, 2));
    let rast = EdgeFunctionRasterizer::new();
    let mut fb1 = FrameBuffer::new(vec![0u32; 16], 4, 4);
    let mut fb2 = FrameBuffer::new(vec![0u32; 16], 4, 4);
    rast.fill_triangle(&t1, &mut fb1, RED);
    rast.fill_triangle(&t2, &mut fb2, RED);
    let d1 = fb1.into_data();
    let d2 = fb2.into_data();
    let mut painted = 0;
    for i in 0..16 {
        assert!(
            !(d1[i] == RED && d2[i] == RED),
            "pixel ({}, {}) double-filled across the shared edge",
            i % 4,
            i / 4
        );
        if d1[i] == RED || d2[i] == RED {
            painted += 1;
        }
    }
    // The 2x2 square's four pixel centers are all covered by one side.
    assert_eq!(painted, 4);
    // The diagonal-centered pixels (0,1) and (1,0) belong to the
    // triangle for which the diagonal is a left edge (t2).
    assert_eq!(d2[4], RED);
    assert_eq!(d2[1], RED);
    assert_eq!(d1[4], 0);
    assert_eq!(d1[1], 0);
}

#[test]
fn reversed_winding_fills_the_same_pixels() {
    // Area-sign invariance: reversing the vertex order flips the area's
    // sign but fills the identical set of pixels.
    let t = tri((1, 1), (8, 1), (1, 8));
    let r = tri((1, 8), (8, 1), (1, 1));
    let mut fb_t = buffer_10x10();
    let mut fb_r = buffer_10x10();
    let rast = EdgeFunctionRasterizer::new();
    rast.fill_triangle(&t, &mut fb_t, RED);
    rast.fill_triangle(&r, &mut fb_r, RED);
    let a = fb_t.into_data();
    let b = fb_r.into_data();
    assert_eq!(a, b);
}

#[test]
fn degenerate_triangle_writes_nothing() {
    // All three vertices collinear: zero area, zero pixels written.
    let t = tri((1, 1), (4, 4), (7, 7));
    let mut fb = buffer_10x10();
    EdgeFunctionRasterizer::new().fill_triangle(&t, &mut fb, RED);
    assert!(fb.into_data().iter().all(|&p| p == 0));
    let mut fb2 = buffer_10x10();
    ScanlineRasterizer::new().fill_triangle(&t, &mut fb2, RED);
    assert!(fb2.into_data().iter().all(|&p| p == 0));
}

#[test]
fn triangle_outside_buffer_writes_nothing() {
    let t = tri((20, 20), (30, 20), (20, 30));
    let mut fb = buffer_10x10();
    EdgeFunctionRasterizer::new().fill_triangle(&t, &mut fb, RED);
    assert!(fb.into_data().iter().all(|&p| p == 0));
    let mut fb2 = buffer_10x10();
    ScanlineRasterizer::new().fill_triangle(&t, &mut fb2, RED);
    assert!(fb2.into_data().iter().all(|&p| p == 0));
}

#[test]
fn gouraud_centroid_matches_average_of_vertex_colors() {
    // Gouraud mode with red/green/blue vertices: the pixel nearest the
    // centroid is close to the unweighted average of the three colors.
    let mut t = tri((1, 1), (8, 1), (1, 8));
    t.shading_mode = ShadingMode::Gouraud;
    t.vertex_colors = Some([0xFFFF0000, 0xFF00FF00, 0xFF0000FF]);
    let mut fb = buffer_10x10();
    EdgeFunctionRasterizer::new().fill_triangle(&t, &mut fb, 0);
    let got = fb.get_pixel(3, 3).unwrap();
    let avg = 255 / 3; // 85 per channel
    for shift in [16u32, 8, 0] {
        let ch = ((got >> shift) & 0xFF) as i64;
        assert!(
            (ch - avg).abs() <= 16,
            "channel at shift {shift} is {ch}, expected near {avg}"
        );
    }
    assert_eq!((got >> 24) & 0xFF, 0xFF);
}

#[test]
fn gouraud_vertex_corner_is_dominated_by_its_color() {
    let mut t = tri((1, 1), (8, 1), (1, 8));
    t.shading_mode = ShadingMode::Gouraud;
    t.vertex_colors = Some([0xFFFF0000, 0xFF00FF00, 0xFF0000FF]);
    let mut fb = buffer_10x10();
    EdgeFunctionRasterizer::new().fill_triangle(&t, &mut fb, 0);
    let corner = fb.get_pixel(1, 1).unwrap();
    let r = (corner >> 16) & 0xFF;
    let g = (corner >> 8) & 0xFF;
    let b = corner & 0xFF;
    assert!(r > g && r > b, "corner near vertex 0 should be mostly red");
}

#[test]
fn gouraud_same_color_everywhere_is_flat() {
    let mut t = tri((1, 1), (8, 1), (1, 8));
    t.shading_mode = ShadingMode::Gouraud;
    t.vertex_colors = Some([0xFF406080, 0xFF406080, 0xFF406080]);
    let mut fb = buffer_10x10();
    EdgeFunctionRasterizer::new().fill_triangle(&t, &mut fb, 0);
    let center = fb.get_pixel(2, 2).unwrap();
    // The barycentric floors may lose at most two units of 1/65536 per
    // channel before repacking, which rounds back to the same byte or
    // one below.
    for shift in [16u32, 8, 0] {
        let ch = ((center >> shift) & 0xFF) as i64;
        let want = ((0xFF406080u32 >> shift) & 0xFF) as i64;
        assert!((ch - want).abs() <= 1, "channel {shift}: {ch} vs {want}");
    }
}

#[test]
fn barycentric_coordinates_partition_unity() {
    let v0 = Vec2::new(0, 0);
    let v1 = Vec2::new(10, 0);
    let v2 = Vec2::new(0, 10);
    let (l0, l1, l2) = barycentric_coordinates(Vec2::new(3, 3), v0, v1, v2);
    let sum = l0 + l1 + l2;
    assert!(FX_ONE - 2 <= sum && sum <= FX_ONE, "sum was {sum}");
    // At a vertex the matching weight is one.
    let (a0, a1, a2) = barycentric_coordinates(Vec2::new(0, 0), v0, v1, v2);
    assert_eq!((a0, a1, a2), (FX_ONE, 0, 0));
}

#[test]
fn barycentric_coordinates_degenerate_is_zero() {
    let v = Vec2::new(1, 1);
    let out = barycentric_coordinates(Vec2::new(5, 5), v, v, v);
    assert_eq!(out, (0, 0, 0));
}

#[test]
fn edge_function_signs() {
    let a = Vec2::new(0, 0);
    let b = Vec2::new(10, 0);
    // With the top-left origin (y grows downward), a point below the
    // +x edge is to its right: negative.
    assert!(edge_function(a, b, Vec2::new(5, 5)) < 0);
    assert!(edge_function(a, b, Vec2::new(5, -5)) > 0);
    assert_eq!(edge_function(a, b, Vec2::new(5, 0)), 0);
    assert_eq!(
        triangle_area(a, b, Vec2::new(0, 10)),
        -triangle_area(b, a, Vec2::new(0, 10))
    );
}

#[test]
fn dispatcher_matches_direct_strategies() {
    let t = tri((1, 1), (8, 1), (1, 8));
    let mut via_dispatch = buffer_10x10();
    let mut direct = buffer_10x10();
    RasterizerDispatcher::new(RasterizerType::EdgeFunction).fill_triangle(
        &t,
        &mut via_dispatch,
        RED,
    );
    EdgeFunctionRasterizer::new().fill_triangle(&t, &mut direct, RED);
    assert_eq!(via_dispatch.into_data(), direct.into_data());
    let mut via_dispatch_s = buffer_10x10();
    let mut direct_s = buffer_10x10();
    let d = RasterizerDispatcher::new(RasterizerType::Scanline);
    assert_eq!(d.kind(), RasterizerType::Scanline);
    d.fill_triangle(&t, &mut via_dispatch_s, RED);
    ScanlineRasterizer::new().fill_triangle(&t, &mut direct_s, RED);
    assert_eq!(via_dispatch_s.into_data(), direct_s.into_data());
}
