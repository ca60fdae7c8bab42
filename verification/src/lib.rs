//! The deciding core of a small path tracer.
//!
//! A path tracer is mostly arithmetic, and a little logic that the arithmetic
//! feeds: which root of a quadratic is the hit, which surface is nearest, when a
//! path ends, how a colour is clamped and laid out in the image. This crate is
//! that logic. Numbers are binary32 values held as bits, so that every
//! comparison is an integer comparison with an exact meaning.
//!
//! - `scalar`: binary32 values as bits, their order, least and greatest, and
//!   rounding to a byte.
//! - `color`: colours and their clamping to the displayable range.
//! - `geo`: the hit of a ray on a sphere, a plane and a triangle.
//! - `material`: what each material emits and gives back, and the choices at
//!   glass.
//! - `integrator`: the nearest hit of a scene, and how a path goes on.
//! - `frame`: the layout of the image and its bytes.
//! - `encode`: the image as a PNG file.
//! - `options`: the command line.

pub mod scalar;
pub mod color;
pub mod geo;
pub mod material;
pub mod integrator;
pub mod frame;
pub mod encode;
pub mod options;
