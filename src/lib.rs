//! Host-side core of a GPU path tracer: a bounding-volume hierarchy over a
//! triangle mesh, the fixed binary layouts shared with the device program,
//! camera defaulting, and the sizing and scheduling rules of the render and
//! post-processing passes.
//!
//! Floating-point values are carried as their IEEE-754 single-precision bit
//! patterns (`u32`). Geometry is compared through an order key of those bits,
//! which orders finite floats exactly as the floats themselves are ordered.

pub mod geometry;
pub mod bvh;
pub mod camera;
pub mod layout;
pub mod scene;
pub mod render;
pub mod mesh;
pub mod arena;
