//! Decision kernel of a Monte Carlo path tracer.
//!
//! Every branch a renderer takes while tracing a path (which root of the
//! sphere quadratic counts, which primitive is nearest, which side of a
//! surface was struck, whether a dielectric reflects or refracts, when a path
//! is cut off, in which order pixels leave the renderer) is decided here by
//! exact integer comparison and proved against a contract. Scalars are carried
//! as order-preserving keys of binary64 values; the numeric evaluation of
//! sums, products and square roots is left to the caller.

pub mod camera;
pub mod error;
pub mod image;
pub mod integrator;
pub mod material;
pub mod ray;
pub mod scene;
pub mod sphere;
pub mod units;
