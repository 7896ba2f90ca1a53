//! Scalars as ordered keys.
//!
//! A binary64 value is a sign bit and 63 magnitude bits. Among the values that
//! are not NaN, a larger magnitude field means a larger absolute value, so the
//! signed magnitude orders them exactly as the real numbers they stand for.
//! A [`Scalar`] holds that signed magnitude: comparing keys compares values,
//! the sign of the key is the sign of the value, and negating the key negates
//! the value. Both zeros share the key `0`.

use vstd::prelude::*;

verus! {

/// Magnitude field of positive infinity; every larger magnitude is a NaN.
pub const INFINITY_KEY: i64 = 0x7FF0_0000_0000_0000;

/// Key of `1.0`.
pub const ONE_KEY: i64 = 0x3FF0_0000_0000_0000;

/// Key of the parameter below which an intersection counts as the surface
/// the ray has just left (`0.001`).
pub const SHADOW_BIAS_KEY: i64 = 0x3F50_624D_D2F1_A9FC;

/// Key of the magnitude below which a component counts as zero (`1e-8`).
pub const NEAR_ZERO_KEY: i64 = 0x3E45_798E_E230_8C3A;

/// The sign bit of a binary64 bit pattern, as a number.
pub const SIGN_BIT: u64 = 0x8000_0000_0000_0000;

/// The magnitude field of a bit pattern: everything but the sign bit.
pub open spec fn magnitude(bits: u64) -> int {
    if bits >= SIGN_BIT {
        bits - SIGN_BIT
    } else {
        bits as int
    }
}

/// Whether a bit pattern encodes a NaN.
pub open spec fn is_nan_bits(bits: u64) -> bool {
    magnitude(bits) > INFINITY_KEY
}

/// The key of a bit pattern: its magnitude, negated when the sign bit is set.
pub open spec fn key_of_bits(bits: u64) -> int {
    if bits >= SIGN_BIT {
        -magnitude(bits)
    } else {
        magnitude(bits)
    }
}

/// The bit pattern of a key, with the positive zero for key `0`.
pub open spec fn bits_of_key(key: int) -> int {
    if key >= 0 {
        key
    } else {
        SIGN_BIT - key
    }
}

/// Every key within the infinities has a bit pattern, which is not a NaN and
/// has that key again.
pub proof fn lemma_key_round_trip(key: int)
    requires
        -INFINITY_KEY <= key <= INFINITY_KEY,
    ensures
        0 <= bits_of_key(key) <= u64::MAX,
        !is_nan_bits(bits_of_key(key) as u64),
        key_of_bits(bits_of_key(key) as u64) == key,
{
}

/// Every bit pattern that is not a NaN is the bit pattern of its key, but for
/// the negative zero, whose key gives the positive zero.
pub proof fn lemma_bits_round_trip(bits: u64)
    requires
        !is_nan_bits(bits),
    ensures
        -INFINITY_KEY <= key_of_bits(bits) <= INFINITY_KEY,
        bits_of_key(key_of_bits(bits)) == (if bits == SIGN_BIT {
            0
        } else {
            bits as int
        }),
{
}

/// Among the bit patterns of one sign that are not NaN, the key grows with
/// the magnitude where the sign bit is clear and falls with it where the sign
/// bit is set; a pattern with the sign bit set never has a key above that of
/// one without.
pub proof fn lemma_key_order(a: u64, b: u64)
    requires
        !is_nan_bits(a),
        !is_nan_bits(b),
    ensures
        a < SIGN_BIT && b < SIGN_BIT ==> (key_of_bits(a) < key_of_bits(b) <==> a < b),
        a >= SIGN_BIT && b >= SIGN_BIT ==> (key_of_bits(a) < key_of_bits(b) <==> a > b),
        a >= SIGN_BIT && b < SIGN_BIT ==> key_of_bits(a) <= key_of_bits(b),
{
}

/// A scalar that is not NaN, held as its ordered key.
#[derive(Clone, Copy, Debug)]
pub struct Scalar {
    key: i64,
}

impl View for Scalar {
    type V = int;

    closed spec fn view(&self) -> int {
        self.key as int
    }
}

impl Scalar {
    #[verifier::type_invariant]
    spec fn in_range(self) -> bool {
        -INFINITY_KEY <= self.key <= INFINITY_KEY
    }

    /// The scalar with the given key.
    pub closed spec fn with_key(key: int) -> Scalar {
        Scalar { key: key as i64 }
    }

    /// The scalar with a key has that key.
    pub proof fn lemma_with_key(key: int)
        requires
            i64::MIN <= key <= i64::MAX,
        ensures
            Scalar::with_key(key)@ == key,
    {
    }

    /// Two scalars with the same key are the same scalar.
    pub proof fn lemma_view_injective(a: Scalar, b: Scalar)
        requires
            a@ == b@,
        ensures
            a == b,
    {
    }

    /// The scalar with the given key, if the key is within the infinities.
    pub fn from_key(key: i64) -> (r: Option<Scalar>)
        ensures
            r is Some <==> -INFINITY_KEY <= key <= INFINITY_KEY,
            r matches Some(s) ==> s == Scalar::with_key(key as int) && s@ == key,
    {
        if -INFINITY_KEY <= key && key <= INFINITY_KEY {
            Some(Scalar { key })
        } else {
            None
        }
    }

    /// The key of this scalar.
    pub fn key(&self) -> (k: i64)
        ensures
            k == self@,
            -INFINITY_KEY <= k <= INFINITY_KEY,
    {
        proof {
            use_type_invariant(self);
        }
        self.key
    }

    /// Decodes a binary64 bit pattern; `None` exactly for the NaN patterns.
    pub fn from_bits(bits: u64) -> (r: Option<Scalar>)
        ensures
            r is None <==> is_nan_bits(bits),
            r matches Some(s) ==> s@ == key_of_bits(bits),
    {
        let negative: bool = bits >= SIGN_BIT;
        let mag: u64 = if negative {
            bits - SIGN_BIT
        } else {
            bits
        };
        if mag > INFINITY_KEY as u64 {
            None
        } else {
            let m: i64 = mag as i64;
            if negative {
                Some(Scalar { key: -m })
            } else {
                Some(Scalar { key: m })
            }
        }
    }

    /// Encodes this scalar as a binary64 bit pattern; zero comes out positive.
    pub fn to_bits(&self) -> (bits: u64)
        ensures
            bits == bits_of_key(self@),
            !is_nan_bits(bits),
            key_of_bits(bits) == self@,
    {
        proof {
            use_type_invariant(self);
        }
        if self.key >= 0 {
            self.key as u64
        } else {
            let m: i64 = -self.key;
            SIGN_BIT + (m as u64)
        }
    }

    /// Zero.
    pub fn zero() -> (r: Scalar)
        ensures
            r == Scalar::with_key(0),
            r@ == 0,
    {
        Scalar { key: 0 }
    }

    /// One.
    pub fn one() -> (r: Scalar)
        ensures
            r == Scalar::with_key(ONE_KEY as int),
            r@ == ONE_KEY,
    {
        Scalar { key: ONE_KEY }
    }

    /// Positive infinity, above every other scalar.
    pub fn infinity() -> (r: Scalar)
        ensures
            r == Scalar::with_key(INFINITY_KEY as int),
            r@ == INFINITY_KEY,
    {
        Scalar { key: INFINITY_KEY }
    }

    /// The smallest parameter at which a ray may strike again after it left
    /// a surface (`0.001`): nearer hits are the surface itself, seen through
    /// rounding.
    pub fn shadow_bias() -> (r: Scalar)
        ensures
            r == Scalar::with_key(SHADOW_BIAS_KEY as int),
            r@ == SHADOW_BIAS_KEY,
    {
        Scalar { key: SHADOW_BIAS_KEY }
    }

    /// The negated scalar.
    pub fn neg(&self) -> (r: Scalar)
        ensures
            r@ == -self@,
    {
        proof {
            use_type_invariant(self);
        }
        Scalar { key: -self.key }
    }

    /// The distance of this scalar from zero.
    pub fn abs(&self) -> (r: Scalar)
        ensures
            r@ == (if self@ < 0 {
                -self@
            } else {
                self@
            }),
    {
        proof {
            use_type_invariant(self);
        }
        if self.key < 0 {
            Scalar { key: -self.key }
        } else {
            *self
        }
    }

    /// The smaller of this scalar and `other`.
    pub fn min(&self, other: &Scalar) -> (r: Scalar)
        ensures
            r@ == (if other@ < self@ {
                other@
            } else {
                self@
            }),
            r == *self || r == *other,
    {
        if other.key < self.key {
            *other
        } else {
            *self
        }
    }

    /// Whether this scalar is strictly below `other`.
    pub fn lt(&self, other: &Scalar) -> (r: bool)
        ensures
            r == (self@ < other@),
    {
        self.key < other.key
    }

    /// Whether this scalar is below or equal to `other`.
    pub fn le(&self, other: &Scalar) -> (r: bool)
        ensures
            r == (self@ <= other@),
    {
        self.key <= other.key
    }
}

} // verus!
