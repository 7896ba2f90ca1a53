//! Why a scene description is refused.

use vstd::prelude::*;

verus! {

/// A parameter that no scene may hold, found when the scene is built.
#[derive(Clone, Copy, Debug, PartialEq, Eq, Structural)]
pub enum ConfigError {
    /// A sphere's radius was zero or negative.
    NonPositiveRadius,
    /// A metal's fuzz was below zero or above one.
    FuzzOutOfRange,
    /// A dielectric's refractive index was zero or negative.
    NonPositiveRefractiveIndex,
    /// The camera looks at the point it stands on, or along its up vector,
    /// so that its basis has a vector without length.
    DegenerateCameraBasis,
}

/// A value on which a numeric step of the renderer is not defined.
#[derive(Clone, Copy, Debug, PartialEq, Eq, Structural)]
pub enum NumericError {
    /// A vector without length was to be brought to unit length.
    DegenerateVector,
}

} // verus!
