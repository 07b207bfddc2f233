//! A ray tracer in fixed-point arithmetic, verified.
//!
//! Homogeneous tuples and small matrices carry the geometry; rays are intersected with spheres;
//! the Phong model shades the nearest hit; a camera and a world fill a canvas pixel by pixel.
//! All numbers are [`scalar::Scalar`]s, billionths held in 64-bit integers, so a scene renders
//! to the same picture on every machine. No function panics and none hands out a value that
//! left the range on the way: what cannot be computed is an [`error::Error`].
//!
//! Every executable function has a spec function beside it that says what it computes, and is
//! proved to compute just that. Laws that relate several functions are proof functions in the
//! module of their subject.

pub mod error;
pub mod scalar;
pub mod trig;
pub mod power;
pub mod primatives;
pub mod accuracy;
pub mod matrix;
pub mod color;
pub mod material;
pub mod light;
pub mod ray;
pub mod shapes;
pub mod shading;
pub mod canvas;
pub mod camera;
pub mod world;
