//! A small ray tracer over fixed-point arithmetic.
//!
//! Scalars (coordinates, ray parameters, light intensities, colour channels)
//! are stored as `i128` values scaled by `fixed::SCALE`, so that the whole
//! rendering pipeline — ray/sphere intersection, shading with shadows, and
//! recursive reflection — can be specified and verified exactly.  Window
//! creation and presentation live outside the library, behind a thin shell
//! that only hands plain values in and out.

pub mod color;
pub mod fixed;
pub mod framebuffer;
pub mod laws;
pub mod render;
pub mod scene;
pub mod tracer;
pub mod vec3;
