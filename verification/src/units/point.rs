//! Positions in space.

use crate::units::vec3::Vec3;
use vstd::prelude::*;

verus! {

/// A position in space.
pub type Point = Vec3;

} // verus!
