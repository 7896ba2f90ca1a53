//! The rules by which the field of small spheres of the demonstration scene
//! is laid out.
//!
//! Each cell of the field draws a position and a number in `[0, 1)`. The
//! sphere is left out where it would touch the large sphere at `(4, 0.2, 0)`,
//! and the number decides what the sphere is made of: four in five are
//! diffuse, three in twenty are metal, one in twenty is glass.

use crate::units::scalar::Scalar;
use vstd::prelude::*;

verus! {

/// Key of `0.8`: below it a small sphere is diffuse.
pub const DIFFUSE_BELOW_KEY: i64 = 0x3FE9_9999_9999_999A;

/// Key of `0.95`: below it, and from `0.8` on, a small sphere is metal.
pub const METAL_BELOW_KEY: i64 = 0x3FEE_6666_6666_6666;

/// Key of `0.9`: the distance from `(4, 0.2, 0)` that a small sphere must
/// exceed.
pub const CLEARANCE_KEY: i64 = 0x3FEC_CCCC_CCCC_CCCD;

/// What a sphere is made of.
#[derive(Clone, Copy, Debug, PartialEq, Eq, Structural)]
pub enum Surface {
    Diffuse,
    Metal,
    Glass,
}

/// The surface that the number with key `choice` stands for.
pub open spec fn surface_for(choice: int) -> Surface {
    if choice < DIFFUSE_BELOW_KEY {
        Surface::Diffuse
    } else if choice < METAL_BELOW_KEY {
        Surface::Metal
    } else {
        Surface::Glass
    }
}

/// The surface of a small sphere that drew `choose_mat`.
pub fn choose_surface(choose_mat: Scalar) -> (surface: Surface)
    ensures
        surface == surface_for(choose_mat@),
{
    let k: i64 = choose_mat.key();
    if k < DIFFUSE_BELOW_KEY {
        Surface::Diffuse
    } else if k < METAL_BELOW_KEY {
        Surface::Metal
    } else {
        Surface::Glass
    }
}

/// Whether a small sphere whose centre lies `distance` from `(4, 0.2, 0)` is
/// placed: the distance must be above `0.9`.
pub fn keeps_clear(distance: Scalar) -> (placed: bool)
    ensures
        placed == (distance@ > CLEARANCE_KEY),
{
    distance.key() > CLEARANCE_KEY
}

} // verus!
