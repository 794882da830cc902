//! Lane accounting and termination rules of a unidirectional path-tracing
//! integrator that works on ray packets four lanes wide.
//!
//! Verus does not reason about floating-point arithmetic, so every real
//! number in this crate is carried as its IEEE 754 binary32 bit pattern
//! ([`math::Scalar`]). What can be decided on bit patterns alone is decided
//! and proved here: whether a value is a NaN, how two values compare, which
//! lanes end and which go on, what is written to the output buffers, and how
//! the image is cut into tiles. The arithmetic itself (products, quotients,
//! sums) is the caller's: it hands in the results.
pub mod math;
pub mod spectrum;
pub mod ray;
pub mod film;
pub mod tile;
pub mod hitable;
pub mod material;
pub mod arena;
pub mod integrator;
pub mod laws;
