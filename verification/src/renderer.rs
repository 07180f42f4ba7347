//! The renderer: an owned color buffer with primitive drawing
//! operations — clearing, grids, rectangles, lines and wireframe
//! triangles.  Triangle *filling* lives in the rasterizer modules; the
//! renderer owns the storage they draw into.

use vstd::prelude::*;

verus! {

use crate::colors::byte_a;
use crate::colors::byte_b;
use crate::colors::byte_g;
use crate::colors::byte_r;
use crate::colors::BACKGROUND;
use crate::framebuffer::lemma_row_index;
use crate::framebuffer::FrameBuffer;
use crate::framebuffer::MAX_DIM;
use crate::triangle::Triangle;
use crate::triangle::TRI_COORD_LIMIT;

/// One Bresenham step from a line state: advance `x` and/or `y` toward
/// the endpoint as the doubled error term dictates, and update the error.
pub open spec fn bres_step(
    x: int,
    y: int,
    err: int,
    sx: int,
    sy: int,
    dx: int,
    dy: int,
) -> (int, int, int) {
    let e2 = 2 * err;
    let x1 = if e2 > -dy {
        x + sx
    } else {
        x
    };
    let err1 = if e2 > -dy {
        err - dy
    } else {
        err
    };
    let y1 = if e2 < dx {
        y + sy
    } else {
        y
    };
    let err2 = if e2 < dx {
        err1 + dx
    } else {
        err1
    };
    (x1, y1, err2)
}

/// The pixels a Bresenham line visits from the state `(x, y, err)` until
/// it reaches `(xe, ye)`, with enough fuel to get there.
pub open spec fn bres_trace(
    x: int,
    y: int,
    err: int,
    xe: int,
    ye: int,
    sx: int,
    sy: int,
    dx: int,
    dy: int,
    fuel: nat,
) -> Seq<(int, int)>
    decreases fuel,
{
    if (x == xe && y == ye) || fuel == 0 {
        seq![(x, y)]
    } else {
        let (xn, yn, errn) = bres_step(x, y, err, sx, sy, dx, dy);
        seq![(x, y)] + bres_trace(xn, yn, errn, xe, ye, sx, sy, dx, dy, (fuel - 1) as nat)
    }
}

/// The sign step toward an endpoint.
pub open spec fn sign_step(from: int, to: int) -> int {
    if from < to {
        1
    } else {
        -1
    }
}

/// The pixels of the Bresenham line from `(x0, y0)` to `(x1, y1)`.
pub open spec fn line_points(x0: int, y0: int, x1: int, y1: int) -> Seq<(int, int)> {
    let dx = vstd::math::abs(x1 - x0);
    let dy = vstd::math::abs(y1 - y0);
    bres_trace(
        x0,
        y0,
        dx - dy,
        x1,
        y1,
        sign_step(x0, x1),
        sign_step(y0, y1),
        dx as int,
        dy as int,
        dx + dy,
    )
}

/// A Bresenham trace starts at its own state and is never empty.
proof fn lemma_trace_head(
    x: int,
    y: int,
    err: int,
    xe: int,
    ye: int,
    sx: int,
    sy: int,
    dx: int,
    dy: int,
    fuel: nat,
)
    ensures
        bres_trace(x, y, err, xe, ye, sx, sy, dx, dy, fuel).len() >= 1,
        bres_trace(x, y, err, xe, ye, sx, sy, dx, dy, fuel)[0] == (x, y),
        (x == xe && y == ye) ==> bres_trace(x, y, err, xe, ye, sx, sy, dx, dy, fuel) == seq![
            (x, y),
        ],
        !(x == xe && y == ye) && fuel >= 1 ==> bres_trace(
            x,
            y,
            err,
            xe,
            ye,
            sx,
            sy,
            dx,
            dy,
            fuel,
        ) == seq![(x, y)] + bres_trace(
            bres_step(x, y, err, sx, sy, dx, dy).0,
            bres_step(x, y, err, sx, sy, dx, dy).1,
            bres_step(x, y, err, sx, sy, dx, dy).2,
            xe,
            ye,
            sx,
            sy,
            dx,
            dy,
            (fuel - 1) as nat,
        ),
{
    if (x == xe && y == ye) || fuel == 0 {
    } else {
    }
}

/// Membership in a concatenation is membership in either part.
proof fn lemma_concat_contains(a: Seq<(int, int)>, b: Seq<(int, int)>, p: (int, int))
    ensures
        (a + b).contains(p) <==> a.contains(p) || b.contains(p),
{
    if (a + b).contains(p) {
        let w = choose|w: int| 0 <= w < (a + b).len() && (a + b)[w] == p;
        if w < a.len() {
            assert(a[w] == p);
        } else {
            assert(b[w - a.len()] == p);
        }
    }
    if a.contains(p) {
        let w = choose|w: int| 0 <= w < a.len() && a[w] == p;
        assert((a + b)[w] == p);
    }
    if b.contains(p) {
        let w = choose|w: int| 0 <= w < b.len() && b[w] == p;
        assert((a + b)[w + a.len()] == p);
    }
}

/// The union of a triangle's three Bresenham edges.
pub open spec fn edge_lines(t: Triangle) -> Seq<(int, int)> {
    line_points(
        t.points[0].x as int,
        t.points[0].y as int,
        t.points[1].x as int,
        t.points[1].y as int,
    ) + line_points(
        t.points[1].x as int,
        t.points[1].y as int,
        t.points[2].x as int,
        t.points[2].y as int,
    ) + line_points(
        t.points[2].x as int,
        t.points[2].y as int,
        t.points[0].x as int,
        t.points[0].y as int,
    )
}

/// Some step `0 <= w < k` of the DDA line lands on `(xi, yi)`.
pub open spec fn dda_step_hits(
    x0: int,
    y0: int,
    dx: int,
    dy: int,
    s: int,
    k: int,
    xi: int,
    yi: int,
) -> bool {
    exists|w: int|
        0 <= w < k && xi == #[trigger] crate::fixed::spec_div_round(x0 * s + w * dx, s) && yi
            == crate::fixed::spec_div_round(y0 * s + w * dy, s)
}

/// The DDA line from `(x0, y0)` toward `(x1, y1)` paints `(xi, yi)`:
/// one of its `max(|dx|, |dy|)` steps (the endpoint itself excluded)
/// rounds to that pixel.
pub open spec fn dda_covered(x0: int, y0: int, x1: int, y1: int, xi: int, yi: int) -> bool {
    let dx = x1 - x0;
    let dy = y1 - y0;
    let s = vstd::math::max(vstd::math::abs(dx) as int, vstd::math::abs(dy) as int);
    dda_step_hits(x0, y0, dx, dy, s, s, xi, yi)
}

/// Owns the color buffer and draws primitives into it.
pub struct Renderer {
    buffer: FrameBuffer,
}

impl Renderer {
    /// The underlying buffer.
    pub closed spec fn spec_buffer(&self) -> FrameBuffer {
        self.buffer
    }

    /// The buffer's width in pixels.
    pub open spec fn spec_width(&self) -> u32 {
        self.spec_buffer().spec_width()
    }

    /// The buffer's height in pixels.
    pub open spec fn spec_height(&self) -> u32 {
        self.spec_buffer().spec_height()
    }

    /// Well-formedness of the underlying buffer.
    pub open spec fn wf(&self) -> bool {
        self.spec_buffer().wf()
    }

    /// The pixel at column `x` of row `y`.
    pub open spec fn pix(&self, x: int, y: int) -> u32 {
        self.spec_buffer().pix(x, y)
    }

    /// `(x, y)` lies inside the buffer.
    pub open spec fn in_bounds(&self, x: int, y: int) -> bool {
        self.spec_buffer().in_bounds(x, y)
    }

    /// Create a renderer whose buffer is filled with the background
    /// color.
    pub fn new(width: u32, height: u32) -> (r: Renderer)
        requires
            width <= MAX_DIM,
            height <= MAX_DIM,
        ensures
            r.wf(),
            r.spec_width() == width,
            r.spec_height() == height,
            forall|xi: int, yi: int| r.in_bounds(xi, yi) ==> r.pix(xi, yi) == BACKGROUND,
    {
        Renderer { buffer: fresh_buffer(width, height, BACKGROUND) }
    }

    /// Replace the buffer with a background-filled one of the new size.
    pub fn resize(&mut self, width: u32, height: u32)
        requires
            width <= MAX_DIM,
            height <= MAX_DIM,
        ensures
            final(self).wf(),
            final(self).spec_width() == width,
            final(self).spec_height() == height,
            forall|xi: int, yi: int|
                final(self).in_bounds(xi, yi) ==> final(self).pix(xi, yi) == BACKGROUND,
    {
        self.buffer = fresh_buffer(width, height, BACKGROUND);
    }

    /// The buffer's width in pixels.
    pub fn width(&self) -> (w: u32)
        ensures
            w == self.spec_width(),
    {
        self.buffer.width()
    }

    /// The buffer's height in pixels.
    pub fn height(&self) -> (h: u32)
        ensures
            h == self.spec_height(),
    {
        self.buffer.height()
    }

    /// Fill every pixel with one color.
    pub fn clear(&mut self, color: u32)
        requires
            old(self).wf(),
        ensures
            final(self).wf(),
            final(self).spec_width() == old(self).spec_width(),
            final(self).spec_height() == old(self).spec_height(),
            forall|xi: int, yi: int|
                final(self).in_bounds(xi, yi) ==> final(self).pix(xi, yi) == color,
    {
        let w = self.buffer.width();
        let h = self.buffer.height();
        proof {
            self.buffer.lemma_wf_dims();
        }
        self.buffer = fresh_buffer(w, h, color);
    }

    /// Set the pixel at `(x, y)`; out-of-bounds coordinates are silently
    /// ignored.
    pub fn set_pixel(&mut self, x: i32, y: i32, color: u32)
        requires
            old(self).wf(),
        ensures
            final(self).wf(),
            final(self).spec_width() == old(self).spec_width(),
            final(self).spec_height() == old(self).spec_height(),
            forall|xi: int, yi: int|
                old(self).in_bounds(xi, yi) ==> final(self).pix(xi, yi) == (if xi == x as int
                    && yi == y as int {
                    color
                } else {
                    old(self).pix(xi, yi)
                }),
    {
        self.buffer.set_pixel(x, y, color);
    }

    /// The color at `(x, y)`, or nothing when out of bounds.
    pub fn get_pixel(&self, x: i32, y: i32) -> (c: Option<u32>)
        requires
            self.wf(),
        ensures
            self.in_bounds(x as int, y as int) ==> c == Some(self.pix(x as int, y as int)),
            !self.in_bounds(x as int, y as int) ==> c == None::<u32>,
    {
        self.buffer.get_pixel(x, y)
    }

    /// Borrow the underlying frame buffer view, for the rasterizers to
    /// fill into.
    pub fn frame_buffer(&mut self) -> (fb: &mut FrameBuffer)
        ensures
            *fb == old(self).spec_buffer(),
            final(self).spec_buffer() == *final(fb),
    {
        &mut self.buffer
    }

    /// Draw grid lines every `spacing` pixels: every pixel whose column
    /// or row is a multiple of the spacing gets the grid color.  A
    /// negative spacing behaves like its absolute value; zero is
    /// excluded because the remainder it would take is undefined.
    pub fn draw_grid(&mut self, spacing: i32, color: u32)
        requires
            old(self).wf(),
            spacing != 0,
        ensures
            final(self).wf(),
            final(self).spec_width() == old(self).spec_width(),
            final(self).spec_height() == old(self).spec_height(),
            forall|xi: int, yi: int|
                old(self).in_bounds(xi, yi) ==> final(self).pix(xi, yi) == (if xi % (
                spacing as int) == 0 || yi % (spacing as int) == 0 {
                    color
                } else {
                    old(self).pix(xi, yi)
                }),
    {
        let w = self.buffer.width();
        let h = self.buffer.height();
        proof {
            self.buffer.lemma_wf_dims();
        }
        let mut y: u32 = 0;
        while y < h
            invariant
                old(self).wf(),
                self.wf(),
                self.spec_width() == old(self).spec_width(),
                self.spec_height() == old(self).spec_height(),
                w == self.spec_width(),
                h == self.spec_height(),
                w <= MAX_DIM,
                h <= MAX_DIM,
                spacing != 0,
                0 <= y <= h,
                forall|xi: int, yi: int|
                    old(self).in_bounds(xi, yi) ==> self.pix(xi, yi) == (if (xi % (
                    spacing as int) == 0 || yi % (spacing as int) == 0) && yi < y {
                        color
                    } else {
                        old(self).pix(xi, yi)
                    }),
            decreases h - y,
        {
            let mut x: u32 = 0;
            while x < w
                invariant
                    old(self).wf(),
                    self.wf(),
                    self.spec_width() == old(self).spec_width(),
                    self.spec_height() == old(self).spec_height(),
                    w == self.spec_width(),
                    h == self.spec_height(),
                    w <= MAX_DIM,
                    h <= MAX_DIM,
                    spacing != 0,
                    0 <= y < h,
                    0 <= x <= w,
                    forall|xi: int, yi: int|
                        old(self).in_bounds(xi, yi) ==> self.pix(xi, yi) == (if (xi % (
                        spacing as int) == 0 || yi % (spacing as int) == 0) && (yi < y || (yi
                            == y && xi < x)) {
                            color
                        } else {
                            old(self).pix(xi, yi)
                        }),
                decreases w - x,
            {
                if x as i32 % spacing == 0 || y as i32 % spacing == 0 {
                    self.buffer.set_pixel(x as i32, y as i32, color);
                }
                x = x + 1;
            }
            y = y + 1;
        }
    }

    /// Fill the axis-aligned rectangle whose top-left corner is `(x, y)`
    /// with the given width and height, clipped to the buffer; a
    /// non-positive width or height describes an empty rectangle and
    /// writes nothing.
    pub fn draw_rect(&mut self, x: i32, y: i32, width: i32, height: i32, color: u32)
        requires
            old(self).wf(),
            -0x10_0000 <= x <= 0x10_0000,
            -0x10_0000 <= y <= 0x10_0000,
            -0x10_0000 <= width <= 0x10_0000,
            -0x10_0000 <= height <= 0x10_0000,
        ensures
            final(self).wf(),
            final(self).spec_width() == old(self).spec_width(),
            final(self).spec_height() == old(self).spec_height(),
            forall|xi: int, yi: int|
                old(self).in_bounds(xi, yi) ==> final(self).pix(xi, yi) == (if x as int <= xi
                    < x + width && y as int <= yi < y + height {
                    color
                } else {
                    old(self).pix(xi, yi)
                }),
    {
        if width <= 0 || height <= 0 {
            return ;
        }
        let mut dy: i32 = 0;
        while dy < height
            invariant
                old(self).wf(),
                self.wf(),
                self.spec_width() == old(self).spec_width(),
                self.spec_height() == old(self).spec_height(),
                -0x10_0000 <= x <= 0x10_0000,
                -0x10_0000 <= y <= 0x10_0000,
                0 < width <= 0x10_0000,
                0 < height <= 0x10_0000,
                0 <= dy <= height,
                forall|xi: int, yi: int|
                    old(self).in_bounds(xi, yi) ==> self.pix(xi, yi) == (if x as int <= xi < x
                        + width && y as int <= yi < y + dy {
                        color
                    } else {
                        old(self).pix(xi, yi)
                    }),
            decreases height - dy,
        {
            let mut dx: i32 = 0;
            while dx < width
                invariant
                    old(self).wf(),
                    self.wf(),
                    self.spec_width() == old(self).spec_width(),
                    self.spec_height() == old(self).spec_height(),
                    -0x10_0000 <= x <= 0x10_0000,
                    -0x10_0000 <= y <= 0x10_0000,
                    0 < width <= 0x10_0000,
                    0 < height <= 0x10_0000,
                    0 <= dy < height,
                    0 <= dx <= width,
                    forall|xi: int, yi: int|
                        old(self).in_bounds(xi, yi) ==> self.pix(xi, yi) == (if x as int <= xi
                            < x + width && y as int <= yi < y + dy || (yi == y + dy && x as int
                            <= xi < x + dx) {
                            color
                        } else {
                            old(self).pix(xi, yi)
                        }),
                decreases width - dx,
            {
                self.buffer.set_pixel(x + dx, y + dy, color);
                dx = dx + 1;
            }
            dy = dy + 1;
        }
    }

    /// Draw the line from `(x0, y0)` to `(x1, y1)` with Bresenham's
    /// algorithm: exactly the pixels of [`line_points`] that lie inside
    /// the buffer are set to the color.
    pub fn draw_line(&mut self, x0: i32, y0: i32, x1: i32, y1: i32, color: u32)
        requires
            old(self).wf(),
            -0x10_0000 <= x0 <= 0x10_0000,
            -0x10_0000 <= y0 <= 0x10_0000,
            -0x10_0000 <= x1 <= 0x10_0000,
            -0x10_0000 <= y1 <= 0x10_0000,
        ensures
            final(self).wf(),
            final(self).spec_width() == old(self).spec_width(),
            final(self).spec_height() == old(self).spec_height(),
            forall|xi: int, yi: int|
                old(self).in_bounds(xi, yi) ==> final(self).pix(xi, yi) == (if line_points(
                    x0 as int,
                    y0 as int,
                    x1 as int,
                    y1 as int,
                ).contains((xi, yi)) {
                    color
                } else {
                    old(self).pix(xi, yi)
                }),
    {
        let dx: i64 = if x1 >= x0 {
            (x1 - x0) as i64
        } else {
            (x0 - x1) as i64
        };
        let dy: i64 = if y1 >= y0 {
            (y1 - y0) as i64
        } else {
            (y0 - y1) as i64
        };
        let sx: i64 = if x0 < x1 {
            1
        } else {
            -1
        };
        let sy: i64 = if y0 < y1 {
            1
        } else {
            -1
        };
        let xe: i64 = x1 as i64;
        let ye: i64 = y1 as i64;
        let mut err: i64 = dx - dy;
        let mut x: i64 = x0 as i64;
        let mut y: i64 = y0 as i64;
        let ghost pts = line_points(x0 as int, y0 as int, x1 as int, y1 as int);
        let ghost mut n: int = 0;
        let ghost mut kx: int = 0;
        let ghost mut ky: int = 0;
        proof {
            lemma_trace_head(x0 as int, y0 as int, dx as int - dy as int, x1 as int, y1 as int,
                sign_step(x0 as int, x1 as int), sign_step(y0 as int, y1 as int), dx as int,
                dy as int, (dx + dy) as nat);
            assert(pts.skip(0) =~= pts);
        }
        loop
            invariant_except_break
                old(self).wf(),
                self.wf(),
                self.spec_width() == old(self).spec_width(),
                self.spec_height() == old(self).spec_height(),
                -0x10_0000 <= x0 <= 0x10_0000,
                -0x10_0000 <= y0 <= 0x10_0000,
                -0x10_0000 <= x1 <= 0x10_0000,
                -0x10_0000 <= y1 <= 0x10_0000,
                dx == vstd::math::abs(x1 as int - x0 as int),
                dy == vstd::math::abs(y1 as int - y0 as int),
                sx == sign_step(x0 as int, x1 as int),
                sy == sign_step(y0 as int, y1 as int),
                xe == x1 as int,
                ye == y1 as int,
                0 <= kx <= dx,
                0 <= ky <= dy,
                x == x0 as int + sx * kx,
                y == y0 as int + sy * ky,
                err == dx - dy - kx * dy + ky * dx,
                pts == line_points(x0 as int, y0 as int, x1 as int, y1 as int),
                0 <= n <= kx + ky,
                n < pts.len(),
                pts.skip(n) =~= bres_trace(
                    x as int,
                    y as int,
                    err as int,
                    xe as int,
                    ye as int,
                    sx as int,
                    sy as int,
                    dx as int,
                    dy as int,
                    (dx + dy - n) as nat,
                ),
                forall|xi: int, yi: int|
                    old(self).in_bounds(xi, yi) ==> self.pix(xi, yi) == (if pts.take(
                        n,
                    ).contains((xi, yi)) {
                        color
                    } else {
                        old(self).pix(xi, yi)
                    }),
            ensures
                self.wf(),
                self.spec_width() == old(self).spec_width(),
                self.spec_height() == old(self).spec_height(),
                forall|xi: int, yi: int|
                    old(self).in_bounds(xi, yi) ==> self.pix(xi, yi) == (if pts.contains(
                        (xi, yi),
                    ) {
                        color
                    } else {
                        old(self).pix(xi, yi)
                    }),
            decreases (dx - kx) + (dy - ky),
        {
            proof {
                assert(-0x30_0000 <= x <= 0x30_0000 && -0x30_0000 <= y <= 0x30_0000) by {
                    assert(sx * kx == kx || sx * kx == -kx) by (nonlinear_arith)
                        requires
                            sx == 1 || sx == -1,
                    ;
                    assert(sy * ky == ky || sy * ky == -ky) by (nonlinear_arith)
                        requires
                            sy == 1 || sy == -1,
                    ;
                }
            }
            self.buffer.set_pixel(x as i32, y as i32, color);
            proof {
                lemma_trace_head(x as int, y as int, err as int, xe as int, ye as int,
                    sx as int, sy as int, dx as int, dy as int, (dx + dy - n) as nat);
                assert(pts.skip(n)[0] == (x as int, y as int));
                assert(pts[n] == (x as int, y as int));
                assert(pts.take(n + 1) =~= pts.take(n).push((x as int, y as int)));
                n = n + 1;
                assert forall|xi: int, yi: int|
                    old(self).in_bounds(xi, yi) implies self.pix(xi, yi) == (if pts.take(
                    n,
                ).contains((xi, yi)) {
                    color
                } else {
                    old(self).pix(xi, yi)
                }) by {
                    if xi == x as int && yi == y as int {
                        assert(pts.take(n)[n - 1] == (xi, yi));
                        assert(pts.take(n).contains((xi, yi)));
                    } else {
                        if pts.take(n).contains((xi, yi)) {
                            let w = choose|w: int|
                                0 <= w < pts.take(n).len() && #[trigger] pts.take(n)[w] == (
                                xi,
                                yi,
                                );
                            assert(w != n - 1);
                            assert(pts.take(n - 1)[w] == (xi, yi));
                            assert(pts.take(n - 1).contains((xi, yi)));
                        }
                        if pts.take(n - 1).contains((xi, yi)) {
                            let w = choose|w: int|
                                0 <= w < pts.take(n - 1).len() && #[trigger] pts.take(
                                    n - 1,
                                )[w] == (xi, yi);
                            assert(pts.take(n)[w] == (xi, yi));
                            assert(pts.take(n).contains((xi, yi)));
                        }
                    }
                }
            }
            if x == xe && y == ye {
                proof {
                    lemma_trace_head(x as int, y as int, err as int, xe as int, ye as int,
                        sx as int, sy as int, dx as int, dy as int, (dx + dy - (n - 1)) as nat);
                    assert(pts.skip(n - 1).len() == 1);
                    assert(pts.take(n) =~= pts);
                }
                break ;
            }
            proof {
                assert(!(kx == dx && ky == dy)) by {
                    assert(sx * dx == x1 - x0 && sy * dy == y1 - y0) by (nonlinear_arith)
                        requires
                            dx == vstd::math::abs(x1 as int - x0 as int),
                            dy == vstd::math::abs(y1 as int - y0 as int),
                            sx == sign_step(x0 as int, x1 as int),
                            sy == sign_step(y0 as int, y1 as int),
                    ;
                }
                assert(dx + dy - (n - 1) >= 1);
                lemma_trace_head(x as int, y as int, err as int, xe as int, ye as int,
                    sx as int, sy as int, dx as int, dy as int, (dx + dy - (n - 1)) as nat);
                lemma_trace_head(
                    bres_step(x as int, y as int, err as int, sx as int, sy as int, dx as int,
                        dy as int).0,
                    bres_step(x as int, y as int, err as int, sx as int, sy as int, dx as int,
                        dy as int).1,
                    bres_step(x as int, y as int, err as int, sx as int, sy as int, dx as int,
                        dy as int).2,
                    xe as int,
                    ye as int,
                    sx as int,
                    sy as int,
                    dx as int,
                    dy as int,
                    (dx + dy - n) as nat,
                );
                assert(pts.skip(n - 1).len() >= 2);
                assert(n < pts.len());
                assert(pts.skip(n) =~= pts.skip(n - 1).skip(1));
                assert(pts.skip(n) =~= bres_trace(
                    bres_step(x as int, y as int, err as int, sx as int, sy as int, dx as int,
                        dy as int).0,
                    bres_step(x as int, y as int, err as int, sx as int, sy as int, dx as int,
                        dy as int).1,
                    bres_step(x as int, y as int, err as int, sx as int, sy as int, dx as int,
                        dy as int).2,
                    xe as int,
                    ye as int,
                    sx as int,
                    sy as int,
                    dx as int,
                    dy as int,
                    (dx + dy - n) as nat,
                ));
                assert(-0x4000_0000_0000 <= err <= 0x4000_0000_0000) by (nonlinear_arith)
                    requires
                        err == dx - dy - kx * dy + ky * dx,
                        0 <= kx <= dx,
                        0 <= ky <= dy,
                        0 <= dx <= 0x20_0000,
                        0 <= dy <= 0x20_0000,
                ;
                if kx == dx {
                    assert(!(2 * err > -dy)) by (nonlinear_arith)
                        requires
                            err == dx - dy - kx * dy + ky * dx,
                            kx == dx,
                            0 <= ky <= dy,
                            ky < dy || kx < dx || !(kx == dx && ky == dy),
                            !(kx == dx && ky == dy),
                            0 <= dx,
                            0 <= dy,
                    ;
                }
                if ky == dy {
                    assert(!(2 * err < dx)) by (nonlinear_arith)
                        requires
                            err == dx - dy - kx * dy + ky * dx,
                            ky == dy,
                            0 <= kx <= dx,
                            !(kx == dx && ky == dy),
                            0 <= dx,
                            0 <= dy,
                    ;
                }
            }
            let e2 = 2 * err;
            let ghost old_kx = kx;
            let ghost old_ky = ky;
            if e2 > -dy {
                err = err - dy;
                x = x + sx;
                proof {
                    assert((kx + 1) * dy == kx * dy + dy) by (nonlinear_arith);
                    kx = kx + 1;
                }
            }
            if e2 < dx {
                err = err + dx;
                y = y + sy;
                proof {
                    assert((ky + 1) * dx == ky * dx + dx) by (nonlinear_arith);
                    ky = ky + 1;
                }
            }
            proof {
                assert(kx + ky > old_kx + old_ky);
            }
        }
    }

    /// Draw the outline of a triangle: its three edges as Bresenham
    /// lines in the triangle's flat color.
    pub fn draw_triangle(&mut self, triangle: &Triangle)
        requires
            old(self).wf(),
            triangle.wf(),
        ensures
            final(self).wf(),
            final(self).spec_width() == old(self).spec_width(),
            final(self).spec_height() == old(self).spec_height(),
            forall|xi: int, yi: int|
                old(self).in_bounds(xi, yi) ==> final(self).pix(xi, yi) == (if edge_lines(
                    *triangle,
                ).contains((xi, yi)) {
                    triangle.color
                } else {
                    old(self).pix(xi, yi)
                }),
    {
        proof {
            assert(triangle.points[0].bounded(TRI_COORD_LIMIT));
            assert(triangle.points[1].bounded(TRI_COORD_LIMIT));
            assert(triangle.points[2].bounded(TRI_COORD_LIMIT));
        }
        let p0 = triangle.points[0];
        let p1 = triangle.points[1];
        let p2 = triangle.points[2];
        self.draw_line(p0.x as i32, p0.y as i32, p1.x as i32, p1.y as i32, triangle.color);
        self.draw_line(p1.x as i32, p1.y as i32, p2.x as i32, p2.y as i32, triangle.color);
        self.draw_line(p2.x as i32, p2.y as i32, p0.x as i32, p0.y as i32, triangle.color);
        proof {
            let l01 = line_points(p0.x as int, p0.y as int, p1.x as int, p1.y as int);
            let l12 = line_points(p1.x as int, p1.y as int, p2.x as int, p2.y as int);
            let l20 = line_points(p2.x as int, p2.y as int, p0.x as int, p0.y as int);
            assert forall|xi: int, yi: int|
                old(self).in_bounds(xi, yi) implies (edge_lines(*triangle).contains(
                (xi, yi),
            ) == (l01.contains((xi, yi)) || l12.contains((xi, yi)) || l20.contains(
                (xi, yi),
            ))) by {
                lemma_concat_contains(l01, l12, (xi, yi));
                lemma_concat_contains(l01 + l12, l20, (xi, yi));
            }
        }
    }

    /// Draw a line with the digital differential analyzer: the segment
    /// is divided into `max(|dx|, |dy|)` equal steps and the position at
    /// each step before the endpoint is rounded to the nearest pixel.
    pub fn draw_line_dda(&mut self, x0: i32, y0: i32, x1: i32, y1: i32, color: u32)
        requires
            old(self).wf(),
            -0x10_0000 <= x0 <= 0x10_0000,
            -0x10_0000 <= y0 <= 0x10_0000,
            -0x10_0000 <= x1 <= 0x10_0000,
            -0x10_0000 <= y1 <= 0x10_0000,
        ensures
            final(self).wf(),
            final(self).spec_width() == old(self).spec_width(),
            final(self).spec_height() == old(self).spec_height(),
            forall|xi: int, yi: int|
                old(self).in_bounds(xi, yi) ==> final(self).pix(xi, yi) == (if dda_covered(
                    x0 as int,
                    y0 as int,
                    x1 as int,
                    y1 as int,
                    xi,
                    yi,
                ) {
                    color
                } else {
                    old(self).pix(xi, yi)
                }),
    {
        let dx: i64 = x1 as i64 - x0 as i64;
        let dy: i64 = y1 as i64 - y0 as i64;
        let adx: i64 = if dx < 0 {
            -dx
        } else {
            dx
        };
        let ady: i64 = if dy < 0 {
            -dy
        } else {
            dy
        };
        let s: i64 = if ady > adx {
            ady
        } else {
            adx
        };
        if s == 0 {
            return ;
        }
        let mut k: i64 = 0;
        while k < s
            invariant
                old(self).wf(),
                self.wf(),
                self.spec_width() == old(self).spec_width(),
                self.spec_height() == old(self).spec_height(),
                -0x10_0000 <= x0 <= 0x10_0000,
                -0x10_0000 <= y0 <= 0x10_0000,
                -0x10_0000 <= x1 <= 0x10_0000,
                -0x10_0000 <= y1 <= 0x10_0000,
                dx == x1 as int - x0 as int,
                dy == y1 as int - y0 as int,
                adx == vstd::math::abs(dx as int),
                ady == vstd::math::abs(dy as int),
                adx <= s,
                ady <= s,
                s == vstd::math::max(
                    vstd::math::abs(dx as int) as int,
                    vstd::math::abs(dy as int) as int,
                ),
                s >= 1,
                0 <= k <= s,
                forall|xi: int, yi: int|
                    old(self).in_bounds(xi, yi) ==> self.pix(xi, yi) == (if dda_step_hits(
                        x0 as int,
                        y0 as int,
                        dx as int,
                        dy as int,
                        s as int,
                        k as int,
                        xi,
                        yi,
                    ) {
                        color
                    } else {
                        old(self).pix(xi, yi)
                    }),
            decreases s - k,
        {
            proof {
                crate::fixed::lemma_mul_bound(x0 as int, 0x10_0000, s as int, 0x20_0000);
                crate::fixed::lemma_mul_bound(y0 as int, 0x10_0000, s as int, 0x20_0000);
                crate::fixed::lemma_mul_bound(k as int, 0x20_0000, dx as int, 0x20_0000);
                crate::fixed::lemma_mul_bound(k as int, 0x20_0000, dy as int, 0x20_0000);
                assert((x0 - adx) * s <= x0 as int * s + k * dx <= (x0 + adx) * s
                    && (y0 - ady) * s <= y0 as int * s + k * dy <= (y0 + ady) * s)
                    by (nonlinear_arith)
                    requires
                        0 <= k < s,
                        -adx <= dx <= adx,
                        -ady <= dy <= ady,
                        adx <= s,
                        ady <= s,
                ;
                crate::fixed::lemma_div_round_range(x0 as int * s + k * dx, s as int, (
                x0 - adx) as int, (x0 + adx) as int);
                crate::fixed::lemma_div_round_range(y0 as int * s + k * dy, s as int, (
                y0 - ady) as int, (y0 + ady) as int);
            }
            let px = crate::fixed::div_round(x0 as i64 * s + k * dx, s);
            let py = crate::fixed::div_round(y0 as i64 * s + k * dy, s);
            self.buffer.set_pixel(px as i32, py as i32, color);
            proof {
                assert forall|xi: int, yi: int|
                    dda_step_hits(x0 as int, y0 as int, dx as int, dy as int, s as int, k + 1,
                        xi, yi) && !(xi == px as int && yi == py as int) implies dda_step_hits(
                    x0 as int,
                    y0 as int,
                    dx as int,
                    dy as int,
                    s as int,
                    k as int,
                    xi,
                    yi,
                ) by {
                    let w = choose|w: int|
                        0 <= w < k + 1 && xi == #[trigger] crate::fixed::spec_div_round(
                            x0 as int * s + w * dx,
                            s as int,
                        ) && yi == crate::fixed::spec_div_round(y0 as int * s + w * dy, s as int);
                    assert(w < k);
                }
            }
            k = k + 1;
        }
    }

    /// The buffer as raw bytes: four bytes per pixel in ARGB8888 order
    /// with the alpha in the most significant byte, which on a
    /// little-endian byte stream is blue, green, red, alpha per pixel,
    /// row-major, no padding.
    pub fn as_bytes(&self) -> (bytes: Vec<u8>)
        requires
            self.wf(),
        ensures
            bytes@.len() == 4 * self.spec_width() * self.spec_height(),
            forall|i: int|
                0 <= i < self.spec_width() * self.spec_height() ==> {
                    &&& bytes@[4 * i] == byte_b(#[trigger] self.spec_buffer().at(i)) as u8
                    &&& bytes@[4 * i + 1] == byte_g(self.spec_buffer().at(i)) as u8
                    &&& bytes@[4 * i + 2] == byte_r(self.spec_buffer().at(i)) as u8
                    &&& bytes@[4 * i + 3] == byte_a(self.spec_buffer().at(i)) as u8
                },
    {
        let w = self.buffer.width();
        let h = self.buffer.height();
        proof {
            self.buffer.lemma_wf_dims();
            crate::fixed::lemma_mul_bound(w as int, MAX_DIM as int, h as int, MAX_DIM as int);
        }
        let n = (w as usize) * (h as usize);
        let mut bytes: Vec<u8> = Vec::new();
        let mut i: usize = 0;
        while i < n
            invariant
                self.wf(),
                n == self.spec_width() * self.spec_height(),
                n <= 0x4000_0000,
                0 <= i <= n,
                bytes@.len() == 4 * i,
                forall|k: int|
                    0 <= k < i ==> {
                        &&& bytes@[4 * k] == byte_b(#[trigger] self.spec_buffer().at(k)) as u8
                        &&& bytes@[4 * k + 1] == byte_g(self.spec_buffer().at(k)) as u8
                        &&& bytes@[4 * k + 2] == byte_r(self.spec_buffer().at(k)) as u8
                        &&& bytes@[4 * k + 3] == byte_a(self.spec_buffer().at(k)) as u8
                    },
            decreases n - i,
        {
            let p = self.buffer.at_index(i);
            proof {
                crate::colors::lemma_byte_bounds(p);
            }
            bytes.push((p & 0xFF) as u8);
            bytes.push(((p >> 8) & 0xFF) as u8);
            bytes.push(((p >> 16) & 0xFF) as u8);
            bytes.push(((p >> 24) & 0xFF) as u8);
            i = i + 1;
        }
        proof {
            assert(4 * (w as int * h as int) == 4 * (w as int) * (h as int))
                by (nonlinear_arith);
        }
        bytes
    }
}

/// A freshly allocated buffer of one color.
fn fresh_buffer(width: u32, height: u32, color: u32) -> (fb: FrameBuffer)
    requires
        width <= MAX_DIM,
        height <= MAX_DIM,
    ensures
        fb.wf(),
        fb.spec_width() == width,
        fb.spec_height() == height,
        forall|xi: int, yi: int| fb.in_bounds(xi, yi) ==> fb.pix(xi, yi) == color,
{
    proof {
        crate::fixed::lemma_mul_bound(width as int, MAX_DIM as int, height as int,
            MAX_DIM as int);
    }
    let n = (width as usize) * (height as usize);
    let data: Vec<u32> = vec![color; n];
    let fb = FrameBuffer::new(data, width, height);
    proof {
        assert forall|xi: int, yi: int| fb.in_bounds(xi, yi) implies fb.pix(xi, yi) == color by {
            lemma_row_index(width as int, height as int, xi, yi);
        }
    }
    fb
}

} // verus!
