//! The control structure of a recursive ray caster: scene bookkeeping,
//! nearest-hit selection, bounded reflection and the raster loop.
//!
//! Real numbers are carried as IEEE 754 binary32 bit patterns. The library
//! orders and classifies them; arithmetic on them is supplied by the caller
//! as function values, and every contract is stated over what those
//! functions return.

pub mod color;
pub mod framebuffer;
pub mod pixel;
pub mod raytracer;
pub mod scalar;
pub mod scene;
pub mod vector;
pub mod window;
