//! The integer core of a software rasteriser.
//!
//! - [`color`]: 8-bit RGBA samples.
//! - [`depth`]: depth keys, which order IEEE-754 single-precision values as
//!   unsigned integers.
//! - [`framebuffer`]: the colour buffer and the depth buffer, with clipped
//!   and depth-tested writes.
//! - [`fragment`]: fragments and their ordered, depth-tested write.
//! - [`line`]: lines on the pixel grid, stated in closed form.
//! - [`raster`]: the row-by-row scan of a bounding box.
//! - [`render`]: drawing a mesh triangle by triangle.
//! - [`mesh`]: triangle meshes over any vertex type, and the grid of a
//!   sphere.
//! - [`obj`]: the structure of Wavefront OBJ text.
//! - [`shaders`]: the closed set of shaders and planets.
//!
//! Arithmetic on real-valued vectors, matrices and colours is not part of
//! this crate; where it decides something (which pixels a triangle covers,
//! what a vertex holds) the caller supplies it as a function.

pub mod color;
pub mod depth;
pub mod fragment;
pub mod framebuffer;
pub mod line;
pub mod mesh;
pub mod obj;
pub mod raster;
pub mod render;
pub mod shaders;
