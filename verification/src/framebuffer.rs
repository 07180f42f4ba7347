//! A bounds-checked 2D view over a flat pixel array.
//!
//! [`FrameBuffer`] couples a row-major `Vec<u32>` of packed ARGB8888 pixels
//! with its width and height.  Writes outside the buffer are silently
//! dropped; the array length always equals `width * height`, which is
//! demanded at construction.

use vstd::prelude::*;

verus! {

use vstd::pervasive::VecAdditionalExecFns;

/// Largest width or height a buffer may have; keeps every coordinate
/// computation comfortably inside the machine integer types.
pub const MAX_DIM: u32 = 32768;

/// A row-major index stays inside the buffer.
pub proof fn lemma_row_index(w: int, h: int, x: int, y: int)
    by (nonlinear_arith)
    requires
        0 <= x < w,
        0 <= y < h,
    ensures
        0 <= y * w + x < w * h,
{
}

/// Distinct in-range coordinates have distinct row-major indices.
pub proof fn lemma_row_index_injective(w: int, x1: int, y1: int, x2: int, y2: int)
    by (nonlinear_arith)
    requires
        0 <= x1 < w,
        0 <= x2 < w,
        0 <= y1,
        0 <= y2,
        x1 != x2 || y1 != y2,
    ensures
        y1 * w + x1 != y2 * w + x2,
{
}

/// A 2D view over a flat pixel array: `width * height` packed colors in
/// row-major order with the top-left origin.
pub struct FrameBuffer {
    data: Vec<u32>,
    width: u32,
    height: u32,
}

impl FrameBuffer {
    /// The buffer's width in pixels.
    pub closed spec fn spec_width(&self) -> u32 {
        self.width
    }

    /// The buffer's height in pixels.
    pub closed spec fn spec_height(&self) -> u32 {
        self.height
    }

    /// Well-formedness: the array length matches the dimensions and the
    /// dimensions stay below [`MAX_DIM`].
    pub closed spec fn wf(&self) -> bool {
        &&& self.data@.len() == self.width * self.height
        &&& self.width <= MAX_DIM
        &&& self.height <= MAX_DIM
    }

    /// The pixel stored at flat index `i`.
    pub closed spec fn at(&self, i: int) -> u32 {
        self.data@[i]
    }

    /// The pixel stored at column `x` of row `y`.
    pub open spec fn pix(&self, x: int, y: int) -> u32 {
        self.at(y * self.spec_width() + x)
    }

    /// `(x, y)` lies inside the buffer.
    pub open spec fn in_bounds(&self, x: int, y: int) -> bool {
        0 <= x < self.spec_width() && 0 <= y < self.spec_height()
    }

    /// Create a view from a pixel array and its dimensions.  The array
    /// length must match the dimensions exactly; a mismatch is a caller
    /// bug, ruled out here rather than detected later.
    pub fn new(data: Vec<u32>, width: u32, height: u32) -> (fb: FrameBuffer)
        requires
            data@.len() == width * height,
            width <= MAX_DIM,
            height <= MAX_DIM,
        ensures
            fb.wf(),
            fb.spec_width() == width,
            fb.spec_height() == height,
            forall|i: int| 0 <= i < data@.len() ==> fb.at(i) == data@[i],
    {
        FrameBuffer { data, width, height }
    }

    /// Give the pixel array back, consuming the view.
    pub fn into_data(self) -> (data: Vec<u32>)
        ensures
            self.wf() ==> data@.len() == self.spec_width() * self.spec_height(),
            forall|i: int| 0 <= i < data@.len() ==> data@[i] == self.at(i),
    {
        self.data
    }

    /// The buffer's width in pixels.
    pub fn width(&self) -> (w: u32)
        ensures
            w == self.spec_width(),
    {
        self.width
    }

    /// The buffer's height in pixels.
    pub fn height(&self) -> (h: u32)
        ensures
            h == self.spec_height(),
    {
        self.height
    }

    /// A well-formed buffer's dimensions stay below [`MAX_DIM`].
    pub proof fn lemma_wf_dims(&self)
        requires
            self.wf(),
        ensures
            self.spec_width() <= MAX_DIM,
            self.spec_height() <= MAX_DIM,
    {
    }

    /// The pixel at flat row-major index `i`.
    pub fn at_index(&self, i: usize) -> (c: u32)
        requires
            self.wf(),
            i < self.spec_width() * self.spec_height(),
        ensures
            c == self.at(i as int),
    {
        self.data[i]
    }

    /// Set the pixel at `(x, y)`; out-of-bounds coordinates are silently
    /// ignored.
    pub fn set_pixel(&mut self, x: i32, y: i32, color: u32)
        requires
            old(self).wf(),
        ensures
            final(self).wf(),
            final(self).spec_width() == old(self).spec_width(),
            final(self).spec_height() == old(self).spec_height(),
            forall|xi: int, yi: int|
                old(self).in_bounds(xi, yi) ==> final(self).pix(xi, yi) == (if xi == x as int
                    && yi == y as int {
                    color
                } else {
                    old(self).pix(xi, yi)
                }),
    {
        if x >= 0 && x < self.width as i32 && y >= 0 && y < self.height as i32 {
            proof {
                lemma_row_index(self.width as int, self.height as int, x as int, y as int);
                crate::fixed::lemma_mul_bound(self.width as int, MAX_DIM as int,
                    self.height as int, MAX_DIM as int);
            }
            let index = (y as u32 * self.width + x as u32) as usize;
            self.data.set(index, color);
            proof {
                assert forall|xi: int, yi: int|
                    old(self).in_bounds(xi, yi) && !(xi == x as int && yi == y as int) implies
                    self.pix(xi, yi) == old(self).pix(xi, yi) by {
                    lemma_row_index(self.width as int, self.height as int, xi, yi);
                    lemma_row_index_injective(self.width as int, xi, yi, x as int, y as int);
                }
            }
        }
    }

    /// The color at `(x, y)`, or nothing when out of bounds.
    pub fn get_pixel(&self, x: i32, y: i32) -> (c: Option<u32>)
        requires
            self.wf(),
        ensures
            self.in_bounds(x as int, y as int) ==> c == Some(self.pix(x as int, y as int)),
            !self.in_bounds(x as int, y as int) ==> c == None::<u32>,
    {
        if x >= 0 && x < self.width as i32 && y >= 0 && y < self.height as i32 {
            proof {
                lemma_row_index(self.width as int, self.height as int, x as int, y as int);
                crate::fixed::lemma_mul_bound(self.width as int, MAX_DIM as int,
                    self.height as int, MAX_DIM as int);
            }
            let index = (y as u32 * self.width + x as u32) as usize;
            Some(self.data[index])
        } else {
            None
        }
    }

    /// Fill the horizontal span `[x_start, x_end]` of row `y`, clipped to
    /// the buffer; rows outside the buffer and empty spans write nothing.
    pub fn fill_scanline(&mut self, y: i32, x_start: i32, x_end: i32, color: u32)
        requires
            old(self).wf(),
        ensures
            final(self).wf(),
            final(self).spec_width() == old(self).spec_width(),
            final(self).spec_height() == old(self).spec_height(),
            forall|xi: int, yi: int|
                old(self).in_bounds(xi, yi) ==> final(self).pix(xi, yi) == (if yi == y as int
                    && x_start as int <= xi <= x_end as int {
                    color
                } else {
                    old(self).pix(xi, yi)
                }),
    {
        if y < 0 || y >= self.height as i32 {
            return ;
        }
        if self.width == 0 {
            return ;
        }
        let xs: i32 = if x_start < 0 {
            0
        } else {
            x_start
        };
        let last: i32 = self.width as i32 - 1;
        let xe: i32 = if x_end > last {
            last
        } else {
            x_end
        };
        if xs > xe {
            return ;
        }
        let mut x: i32 = xs;
        while x <= xe
            invariant
                old(self).wf(),
                self.wf(),
                self.spec_width() == old(self).spec_width(),
                self.spec_height() == old(self).spec_height(),
                0 <= y < self.spec_height(),
                0 <= xs <= x <= xe + 1,
                xe < self.spec_width(),
                forall|xi: int, yi: int|
                    old(self).in_bounds(xi, yi) ==> self.pix(xi, yi) == (if yi == y as int && xs
                        as int <= xi < x as int {
                        color
                    } else {
                        old(self).pix(xi, yi)
                    }),
            decreases xe - x + 1,
        {
            proof {
                lemma_row_index(self.width as int, self.height as int, x as int, y as int);
                crate::fixed::lemma_mul_bound(self.width as int, MAX_DIM as int,
                    self.height as int, MAX_DIM as int);
            }
            let index = (y as u32 * self.width + x as u32) as usize;
            self.data.set(index, color);
            proof {
                assert forall|xi: int, yi: int|
                    old(self).in_bounds(xi, yi) && !(xi == x as int && yi == y as int) implies
                    self.at(yi * self.spec_width() + xi) == old(self).pix(xi, yi) || self.at(yi
                    * self.spec_width() + xi) == color by {
                    lemma_row_index(self.width as int, self.height as int, xi, yi);
                    lemma_row_index_injective(self.width as int, xi, yi, x as int, y as int);
                }
                assert forall|xi: int, yi: int|
                    old(self).in_bounds(xi, yi) implies self.pix(xi, yi) == (if yi == y as int
                    && xs as int <= xi < x as int + 1 {
                    color
                } else {
                    old(self).pix(xi, yi)
                }) by {
                    lemma_row_index(self.width as int, self.height as int, xi, yi);
                    if !(xi == x as int && yi == y as int) {
                        lemma_row_index_injective(self.width as int, xi, yi, x as int, y as int);
                    }
                }
            }
            x = x + 1;
        }
    }
}

} // verus!
