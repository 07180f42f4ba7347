//! A CPU-side triangle rasterization core.
//!
//! Given a triangle in screen space (2D points with optional per-vertex
//! colors and perspective divisors) the crate determines which pixels of a
//! target buffer the triangle covers and computes each covered pixel's final
//! color.  Two independent fill strategies are provided (scanline
//! decomposition and edge-function testing), together with a per-pixel
//! shading pipeline and a depth-ordering step for overlapping triangles.
//!
//! All geometry is carried on an integer screen grid and all normalized
//! quantities (colors, interpolation parameters, texture coordinates,
//! reciprocal depths) are carried in fixed-point arithmetic with scale
//! [`fixed::FX_ONE`].  Every computation is therefore exact integer
//! arithmetic, and every function's contract pins its result down to the
//! rounding rule used.

pub mod colors;
pub mod edgefunction;
pub mod fixed;
pub mod framebuffer;
pub mod math;
pub mod rasterizer;
pub mod renderer;
pub mod scanline;
pub mod shader;
pub mod sorting;
pub mod texture;
pub mod triangle;
