//! Triples of scalars: points, directions and colours.
//!
//! Only what is exact on keys lives here: building a triple, reading a
//! component, negating it and testing its magnitude.

use crate::error::NumericError;
use crate::units::scalar::NEAR_ZERO_KEY;
use crate::units::scalar::ONE_KEY;
use crate::units::scalar::Scalar;
use vstd::prelude::*;

verus! {

/// Three scalars; its view is the sequence of their keys.
#[derive(Clone, Copy, Debug)]
pub struct Vec3 {
    pub x: Scalar,
    pub y: Scalar,
    pub z: Scalar,
}

impl View for Vec3 {
    type V = Seq<int>;

    open spec fn view(&self) -> Seq<int> {
        seq![self.x@, self.y@, self.z@]
    }
}

/// The keys of the negated triple.
pub open spec fn negated(v: Seq<int>) -> Seq<int> {
    Seq::new(v.len(), |i: int| -v[i])
}

/// Whether every key of the triple is strictly within `NEAR_ZERO_KEY` of zero.
pub open spec fn all_near_zero(v: Seq<int>) -> bool {
    forall|i: int| 0 <= i < v.len() ==> -NEAR_ZERO_KEY < #[trigger] v[i] < NEAR_ZERO_KEY
}

impl Vec3 {
    /// Two triples with the same keys are the same triple.
    pub proof fn lemma_view_injective(a: Vec3, b: Vec3)
        requires
            a@ == b@,
        ensures
            a == b,
    {
        assert(a@[0] == b@[0] && a@[1] == b@[1] && a@[2] == b@[2]);
        Scalar::lemma_view_injective(a.x, b.x);
        Scalar::lemma_view_injective(a.y, b.y);
        Scalar::lemma_view_injective(a.z, b.z);
    }

    pub fn new(x: Scalar, y: Scalar, z: Scalar) -> (v: Vec3)
        ensures
            v == (Vec3 { x, y, z }),
            v@ == seq![x@, y@, z@],
    {
        Vec3 { x, y, z }
    }

    pub fn x(&self) -> (r: Scalar)
        ensures
            r == self.x,
            r@ == self@[0],
    {
        self.x
    }

    pub fn y(&self) -> (r: Scalar)
        ensures
            r == self.y,
            r@ == self@[1],
    {
        self.y
    }

    pub fn z(&self) -> (r: Scalar)
        ensures
            r == self.z,
            r@ == self@[2],
    {
        self.z
    }

    /// The component on axis `index`: 0 for x, 1 for y, 2 for z.
    pub fn index(&self, index: usize) -> (r: &Scalar)
        requires
            index < 3,
        ensures
            r@ == self@[index as int],
            *r == (if index == 0 {
                self.x
            } else if index == 1 {
                self.y
            } else {
                self.z
            }),
    {
        if index == 0 {
            &self.x
        } else if index == 1 {
            &self.y
        } else {
            &self.z
        }
    }

    /// A place to write the component on axis `index`; the other two stay.
    pub fn index_mut(&mut self, index: usize) -> (r: &mut Scalar)
        requires
            index < 3,
        ensures
            (*r)@ == old(self)@[index as int],
            final(self)@ == old(self)@.update(index as int, (*final(r))@),
    {
        if index == 0 {
            &mut self.x
        } else if index == 1 {
            &mut self.y
        } else {
            &mut self.z
        }
    }

    /// The triple pointing the opposite way.
    pub fn neg(&self) -> (v: Vec3)
        ensures
            v@ == negated(self@),
    {
        let v = Vec3 { x: self.x.neg(), y: self.y.neg(), z: self.z.neg() };
        assert(v@ =~= negated(self@));
        v
    }

    /// Whether the triple is too short to give a direction: every component
    /// strictly within `1e-8` of zero.
    pub fn near_zero(&self) -> (r: bool)
        ensures
            r == all_near_zero(self@),
    {
        let x: i64 = self.x.key();
        let y: i64 = self.y.key();
        let z: i64 = self.z.key();
        let r = -NEAR_ZERO_KEY < x && x < NEAR_ZERO_KEY && -NEAR_ZERO_KEY < y && y
            < NEAR_ZERO_KEY && -NEAR_ZERO_KEY < z && z < NEAR_ZERO_KEY;
        proof {
            assert(self@[0] == x && self@[1] == y && self@[2] == z);
        }
        r
    }
}

/// Guards the division that brings a vector of length `length` to unit
/// length: the length is handed back to divide by unless it is zero.
pub fn unit_vector(length: Scalar) -> (r: Result<Scalar, NumericError>)
    ensures
        r is Ok <==> length@ > 0,
        r matches Ok(divisor) ==> divisor == length,
        r matches Err(e) ==> e == NumericError::DegenerateVector,
{
    if length.key() > 0 {
        Ok(length)
    } else {
        Err(NumericError::DegenerateVector)
    }
}

/// Accepts a random point of the cube `[-1, 1)^3` as a point of the unit
/// ball: `candidate` is kept exactly when its squared length is below one.
pub fn random_in_unit_sphere(candidate: Vec3, length_squared: Scalar) -> (r: Option<Vec3>)
    ensures
        r is Some <==> length_squared@ < ONE_KEY,
        r matches Some(p) ==> p == candidate,
{
    if length_squared.key() >= ONE_KEY {
        None
    } else {
        Some(candidate)
    }
}

/// Turns a point of the unit ball into the hemisphere around a normal:
/// `in_unit_sphere` is kept if its dot product with the normal is positive
/// and negated otherwise.
pub fn random_in_hemisphere(in_unit_sphere: Vec3, dot_with_normal: Scalar) -> (r: Vec3)
    ensures
        r@ == (if dot_with_normal@ > 0 {
            in_unit_sphere@
        } else {
            negated(in_unit_sphere@)
        }),
{
    if dot_with_normal.key() > 0 {
        in_unit_sphere
    } else {
        in_unit_sphere.neg()
    }
}

} // verus!
