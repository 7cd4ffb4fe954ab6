//! Verified 2-D shape rasterization onto a raster image buffer.
//!
//! The crate draws points, lines, triangles, rectangles and circles by
//! computing the exact pixel coverage of each shape and writing colored
//! pixels into an image supplied by the `raster` crate.

pub mod bresenham;
pub mod canvas;
pub mod geometrical_shapes;
mod rng;
