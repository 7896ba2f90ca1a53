//! The sphere, and the decisions of its intersection test.
//!
//! A ray `O + t D` meets the sphere of centre `C` and radius `r` where
//! `a t^2 + 2 half_b t + c = 0`, with `a = D.D`, `half_b = (O - C).D` and
//! `c = |O - C|^2 - r^2`. The caller evaluates the discriminant
//! `half_b^2 - a c`, the two roots, the point of the hit and the outward
//! normal there. Whether there is a hit, at which root, and on which face, is
//! decided here.

use crate::error::ConfigError;
use crate::material::Material;
use crate::ray::HitRecord;
use crate::ray::Hittable;
use crate::ray::Ray;
use crate::ray::narrows;
use crate::units::point::Point;
use crate::units::scalar::Scalar;
use crate::units::vec3::Vec3;
use crate::units::vec3::negated;
use vstd::prelude::*;

verus! {

/// A sphere of positive radius with the material of its surface.
#[derive(Clone, Copy, Debug)]
pub struct Sphere {
    center: Point,
    radius: Scalar,
    material: Material,
}

/// The root at which a ray with roots `near <= far` counts as striking within
/// `[t_min, t_max]`: the near root if it lies in the range, else the far root
/// if that does, else none.
pub open spec fn root_within(near: int, far: int, t_min: int, t_max: int) -> Option<int> {
    if t_min <= near <= t_max {
        Some(near)
    } else if t_min <= far <= t_max {
        Some(far)
    } else {
        None
    }
}

/// A root that is reported is one of the two roots and lies within the
/// range, whose two ends belong to it.
pub proof fn lemma_root_in_range(near: int, far: int, t_min: int, t_max: int)
    ensures
        root_within(near, far, t_min, t_max) matches Some(t) ==> t_min <= t <= t_max && (t == near
            || t == far),
{
}

/// A root that is reported lies above `t_min` and not above `t_max`, unless
/// it is `t_min` itself.
pub proof fn lemma_root_above_minimum(near: int, far: int, t_min: int, t_max: int)
    requires
        root_within(near, far, t_min, t_max) != Some(t_min),
    ensures
        root_within(near, far, t_min, t_max) matches Some(t) ==> t_min < t <= t_max,
{
}

/// Narrowing the range from `t_max` to `bound` only ever hides the root: the
/// same root is reported if it lies within the bound, and none otherwise.
pub proof fn lemma_root_narrows(near: int, far: int, t_min: int, t_max: int, bound: int)
    requires
        near <= far,
        bound <= t_max,
    ensures
        root_within(near, far, t_min, bound) == (match root_within(near, far, t_min, t_max) {
            Some(t) => if t <= bound {
                Some(t)
            } else {
                None
            },
            None => None,
        }),
{
}

/// A primitive that picks its hit among two roots `near <= far` by
/// `root_within`, and whose record depends on the picked root alone, is one
/// whose hits narrowing the range only ever hides.
pub proof fn lemma_root_choice_narrows<H: Hittable>(
    object: H,
    ray: Ray,
    t_min: Scalar,
    t_max: Scalar,
    near: int,
    far: int,
)
    requires
        near <= far,
        forall|bound: Scalar|
            match #[trigger] object.intersect(ray, t_min, bound) {
                Some(rec) => root_within(near, far, t_min@, bound@) == Some(rec.t@),
                None => root_within(near, far, t_min@, bound@) is None,
            },
        forall|b1: Scalar, b2: Scalar|
            match (#[trigger] object.intersect(ray, t_min, b1), #[trigger] object.intersect(
                ray,
                t_min,
                b2,
            )) {
                (Some(r1), Some(r2)) => r1.t@ == r2.t@ ==> r1 == r2,
                _ => true,
            },
    ensures
        narrows(object, ray, t_min, t_max),
{
    assert forall|bound: Scalar| bound@ <= t_max@ implies #[trigger] object.intersect(
        ray,
        t_min,
        bound,
    ) == (match object.intersect(ray, t_min, t_max) {
        Some(rec) => if rec.t@ <= bound@ {
            Some(rec)
        } else {
            None
        },
        None => None,
    }) by {
        lemma_root_narrows(near, far, t_min@, t_max@, bound@);
        let narrowed = object.intersect(ray, t_min, bound);
        let full = object.intersect(ray, t_min, t_max);
        match (narrowed, full) {
            (Some(r1), Some(r2)) => {
                assert(r1.t@ == r2.t@);
            },
            _ => {},
        }
    }
}

impl Sphere {
    #[verifier::type_invariant]
    spec fn radius_positive(self) -> bool {
        self.radius@ > 0
    }

    pub closed spec fn spec_center(&self) -> Point {
        self.center
    }

    pub closed spec fn spec_radius(&self) -> Scalar {
        self.radius
    }

    pub closed spec fn spec_material(&self) -> Material {
        self.material
    }

    /// A sphere around `center`. The radius must be positive.
    pub fn new(center: Point, radius: Scalar, material: Material) -> (r: Result<
        Sphere,
        ConfigError,
    >)
        ensures
            r is Ok <==> radius@ > 0,
            r matches Ok(s) ==> s.spec_center() == center && s.spec_radius() == radius
                && s.spec_material() == material,
            r matches Err(e) ==> e == ConfigError::NonPositiveRadius,
    {
        if radius.key() > 0 {
            Ok(Sphere { center, radius, material })
        } else {
            Err(ConfigError::NonPositiveRadius)
        }
    }

    #[verifier::when_used_as_spec(spec_center)]
    pub fn center(&self) -> (c: Point)
        ensures
            c == self.spec_center(),
    {
        self.center
    }

    /// The radius, above zero.
    #[verifier::when_used_as_spec(spec_radius)]
    pub fn radius(&self) -> (r: Scalar)
        ensures
            r == self.spec_radius(),
            r@ > 0,
    {
        proof {
            use_type_invariant(self);
        }
        self.radius
    }

    #[verifier::when_used_as_spec(spec_material)]
    pub fn material(&self) -> (m: Material)
        ensures
            m == self.spec_material(),
    {
        self.material
    }

    /// Whether the quadratic has real roots: its discriminant is not negative.
    pub fn has_real_roots(discriminant: Scalar) -> (r: bool)
        ensures
            r == (discriminant@ >= 0),
    {
        discriminant.key() >= 0
    }

    /// The root at which the ray strikes within `[t_min, t_max]`: the near
    /// root `(-half_b - sqrt(discriminant)) / a` is tried first, then the far
    /// root `(-half_b + sqrt(discriminant)) / a`.
    pub fn nearest_root(near: Scalar, far: Scalar, t_min: Scalar, t_max: Scalar) -> (r: Option<
        Scalar,
    >)
        ensures
            r is Some <==> root_within(near@, far@, t_min@, t_max@) is Some,
            r matches Some(t) ==> Some(t@) == root_within(near@, far@, t_min@, t_max@) && (t == near
                || t == far) && t_min@ <= t@ <= t_max@,
    {
        let lo: i64 = t_min.key();
        let hi: i64 = t_max.key();
        let mut root = near;
        if root.key() < lo || hi < root.key() {
            root = far;
            if root.key() < lo || hi < root.key() {
                return None;
            }
        }
        Some(root)
    }

    /// The record of a hit on this sphere at `point` with parameter `t`.
    ///
    /// `outward_normal` is `(point - center) / radius` and
    /// `direction_dot_outward` its dot product with the ray's direction. The
    /// record is oriented against the ray and carries the sphere's material.
    pub fn record(
        &self,
        point: Point,
        outward_normal: Vec3,
        t: Scalar,
        direction_dot_outward: Scalar,
    ) -> (rec: HitRecord)
        ensures
            rec.point == point,
            rec.t == t,
            rec.material == self.spec_material(),
            rec.front_face == (direction_dot_outward@ < 0),
            rec.normal@ == (if direction_dot_outward@ < 0 {
                outward_normal@
            } else {
                negated(outward_normal@)
            }),
    {
        let mut record = HitRecord::new(point, outward_normal, t);
        record.set_face_normal(direction_dot_outward, &outward_normal);
        record.material = self.material;
        record
    }
}

} // verus!
