//! Scalars, and the triples built from them: vectors, points and colours.

pub mod color;
pub mod point;
pub mod scalar;
pub mod vec3;
