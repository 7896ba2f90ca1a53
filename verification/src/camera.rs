//! The guard of the camera's construction.
//!
//! The camera looks from `look_from` at `look_at`. Its basis is
//! `w = (look_from - look_at) / |look_from - look_at|`,
//! `u = (up x w) / |up x w|` and `v = w x u`. The caller evaluates the two
//! lengths; whether each gives a basis vector is decided here, before
//! anything is divided by it.

use crate::error::ConfigError;
use crate::units::scalar::Scalar;
use vstd::prelude::*;

verus! {

/// Guards the division that brings a basis vector of the camera to unit
/// length: `length` is `|look_from - look_at|` or `|up x w|`, and is handed
/// back to divide by unless it is zero.
pub fn basis_length(length: Scalar) -> (r: Result<Scalar, ConfigError>)
    ensures
        r is Ok <==> length@ > 0,
        r matches Ok(divisor) ==> divisor == length,
        r matches Err(e) ==> e == ConfigError::DegenerateCameraBasis,
{
    if length.key() > 0 {
        Ok(length)
    } else {
        Err(ConfigError::DegenerateCameraBasis)
    }
}

} // verus!
