//! A 2D vector-drawing core for an interactive canvas surface.
//!
//! Geometry is authored in a logical world coordinate space; callers pan and
//! zoom by mutating an affine transform (offset plus uniform scale).  Every
//! primitive request (line, circle fan, raw line list, adaptive grid) is
//! batched into flat position and color arrays together with the transform
//! under which it must be rasterized.  The GPU plumbing that uploads the
//! arrays and issues the draw lives outside this crate; here all coordinates,
//! colors and scales are exact fixed-point numbers with `fx::UNIT` fractional
//! units per whole unit, so the batching, the transform arithmetic and the
//! adaptive grid algorithm are verified exactly.

pub mod fx;
pub mod transform;
pub mod batch;
pub mod grid;
pub mod renderer;
