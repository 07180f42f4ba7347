//! An exact 2D integer vector.
//!
//! Screen-space positions are whole pixels; normalized quantities such as
//! texture coordinates use the same type at fixed-point scale
//! [`crate::fixed::FX_ONE`].

use vstd::prelude::*;

verus! {

/// Magnitude bound accepted by the vector operations; large enough for any
/// screen coordinate or fixed-point texture coordinate while keeping sums
/// and products inside `i64`.
pub const VEC_LIMIT: i64 = 0x2000_0000;

/// A 2D vector with exact integer components.
#[derive(Clone, Copy, Debug, PartialEq, Eq, Structural)]
pub struct Vec2 {
    pub x: i64,
    pub y: i64,
}

impl Vec2 {
    /// Both components lie within `limit` in magnitude.
    pub open spec fn bounded(self, limit: i64) -> bool {
        -limit <= self.x <= limit && -limit <= self.y <= limit
    }

    /// Construct a vector from its components.
    pub fn new(x: i64, y: i64) -> (v: Vec2)
        ensures
            v.x == x,
            v.y == y,
    {
        Vec2 { x, y }
    }

    /// Component-wise sum.
    pub fn add(&self, other: Vec2) -> (v: Vec2)
        requires
            self.bounded(VEC_LIMIT),
            other.bounded(VEC_LIMIT),
        ensures
            v.x == self.x + other.x,
            v.y == self.y + other.y,
    {
        Vec2 { x: self.x + other.x, y: self.y + other.y }
    }

    /// Component-wise difference.
    pub fn subtract(&self, other: Vec2) -> (v: Vec2)
        requires
            self.bounded(VEC_LIMIT),
            other.bounded(VEC_LIMIT),
        ensures
            v.x == self.x - other.x,
            v.y == self.y - other.y,
    {
        Vec2 { x: self.x - other.x, y: self.y - other.y }
    }

    /// Scale both components by an integer factor.
    pub fn scale(&self, scalar: i64) -> (v: Vec2)
        requires
            self.bounded(VEC_LIMIT),
            -VEC_LIMIT <= scalar <= VEC_LIMIT,
        ensures
            v.x == self.x * scalar,
            v.y == self.y * scalar,
    {
        proof {
            crate::fixed::lemma_mul_bound(self.x as int, VEC_LIMIT as int, scalar as int,
                VEC_LIMIT as int);
            crate::fixed::lemma_mul_bound(self.y as int, VEC_LIMIT as int, scalar as int,
                VEC_LIMIT as int);
        }
        Vec2 { x: self.x * scalar, y: self.y * scalar }
    }

    /// The dot product of two vectors.
    pub fn dot(&self, other: Vec2) -> (d: i64)
        requires
            self.bounded(VEC_LIMIT),
            other.bounded(VEC_LIMIT),
        ensures
            d == self.x * other.x + self.y * other.y,
    {
        proof {
            crate::fixed::lemma_mul_bound(self.x as int, VEC_LIMIT as int, other.x as int,
                VEC_LIMIT as int);
            crate::fixed::lemma_mul_bound(self.y as int, VEC_LIMIT as int, other.y as int,
                VEC_LIMIT as int);
        }
        self.x * other.x + self.y * other.y
    }

    /// The 2D cross product: the signed area of the parallelogram the two
    /// vectors span.
    pub fn cross(&self, other: Vec2) -> (c: i64)
        requires
            self.bounded(VEC_LIMIT),
            other.bounded(VEC_LIMIT),
        ensures
            c == self.x * other.y - self.y * other.x,
    {
        proof {
            crate::fixed::lemma_mul_bound(self.x as int, VEC_LIMIT as int, other.y as int,
                VEC_LIMIT as int);
            crate::fixed::lemma_mul_bound(self.y as int, VEC_LIMIT as int, other.x as int,
                VEC_LIMIT as int);
        }
        self.x * other.y - self.y * other.x
    }
}

} // verus!
