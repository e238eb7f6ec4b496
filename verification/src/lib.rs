//! The decision core of a Whitted-style ray tracer.
//!
//! Every quantity that the tracer compares (a distance along a ray, a
//! discriminant, a denominator, a cosine) is carried here as an `i64`
//! *ordinal*: an integer with the order and the sign of the quantity it
//! stands for. The module `ordinal` reads ordinals from the bit patterns of
//! single-precision numbers and gives the bit patterns back. Colors are
//! integer channel levels, stored as traced and clamped to bytes only when
//! an image is encoded.

pub mod frame;
pub mod object;
pub mod ordinal;
pub mod ppm;
pub mod render;
pub mod scene;
pub mod shading;
