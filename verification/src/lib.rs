//! A recursive Monte-Carlo ray tracer over saturating fixed-point arithmetic.
//!
//! Scalars are stored as integer multiples of `1 / fixed::SCALE`, so every
//! arithmetic step has an exact, machine-checked description: operations
//! saturate at a large representable bound instead of overflowing, and
//! division and square root truncate toward zero.

pub mod camera;
pub mod color;
pub mod fixed;
pub mod hit_record;
pub mod interval;
pub mod material;
pub mod ray;
pub mod render;
pub mod rng;
pub mod sphere;
pub mod text;
pub mod vector;
