//! Mathematical primitives for the rasterization core: integer 2D vectors
//! and the edge-function helpers that both fill strategies build on.

pub mod utils;
pub mod vec2;
