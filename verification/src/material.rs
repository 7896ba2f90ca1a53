//! Surface materials and the choice each makes when a ray strikes it.
//!
//! A material never evaluates a direction itself. The caller hands in what it
//! has evaluated for the event, a [`Proposal`], and the material decides what
//! leaves the surface: which of the proposed directions, and with which
//! attenuation.

use crate::error::ConfigError;
use crate::ray::HitRecord;
use crate::ray::Ray;
use crate::units::color::Color;
use crate::units::scalar::ONE_KEY;
use crate::units::scalar::Scalar;
use crate::units::vec3::Vec3;
use crate::units::vec3::all_near_zero;
use vstd::prelude::*;

verus! {

/// A diffuse surface.
#[derive(Clone, Copy, Debug)]
pub struct Lambertian {
    albedo: Color,
}

/// A reflective surface; `fuzz` lies between zero and one.
#[derive(Clone, Copy, Debug)]
pub struct Metal {
    albedo: Color,
    fuzz: Scalar,
}

/// A refractive surface; the refractive index is positive.
#[derive(Clone, Copy, Debug)]
pub struct Dielectric {
    ir: Scalar,
}

/// The closed set of surface materials.
#[derive(Clone, Copy, Debug)]
pub enum Material {
    Lambertian(Lambertian),
    Metal(Metal),
    Dielectric(Dielectric),
}

/// What the caller has evaluated for one scattering event.
#[derive(Clone, Copy, Debug)]
pub enum Proposal {
    /// For a diffuse surface: the surface normal plus a random unit vector.
    Diffuse { direction: Vec3 },
    /// For a metal: the mirrored unit direction plus `fuzz` times a random
    /// point of the unit ball.
    Mirror { direction: Vec3 },
    /// For a dielectric: the refraction ratio times the sine of the angle of
    /// incidence, the mirrored direction and the refracted direction.
    Glass { ratio_sine: Scalar, reflected: Vec3, refracted: Vec3 },
}

impl Lambertian {
    pub closed spec fn spec_albedo(&self) -> Color {
        self.albedo
    }

    pub fn new(albedo: Color) -> (m: Lambertian)
        ensures
            m.spec_albedo() == albedo,
    {
        Lambertian { albedo }
    }

    /// The fraction of light the surface returns, per channel.
    #[verifier::when_used_as_spec(spec_albedo)]
    pub fn albedo(&self) -> (c: Color)
        ensures
            c == self.spec_albedo(),
    {
        self.albedo
    }
}

impl Metal {
    #[verifier::type_invariant]
    spec fn fuzz_in_range(self) -> bool {
        0 <= self.fuzz@ <= ONE_KEY
    }

    pub closed spec fn spec_albedo(&self) -> Color {
        self.albedo
    }

    pub closed spec fn spec_fuzz(&self) -> Scalar {
        self.fuzz
    }

    /// A metal with the given albedo and roughness. The roughness must lie in
    /// `[0, 1]`; zero is a perfect mirror.
    pub fn new(albedo: Color, fuzz: Scalar) -> (r: Result<Metal, ConfigError>)
        ensures
            r is Ok <==> 0 <= fuzz@ <= ONE_KEY,
            r matches Ok(m) ==> m.spec_albedo() == albedo && m.spec_fuzz() == fuzz,
            r matches Err(e) ==> e == ConfigError::FuzzOutOfRange,
    {
        let k: i64 = fuzz.key();
        if 0 <= k && k <= ONE_KEY {
            Ok(Metal { albedo, fuzz })
        } else {
            Err(ConfigError::FuzzOutOfRange)
        }
    }

    /// The fraction of light the surface returns, per channel.
    #[verifier::when_used_as_spec(spec_albedo)]
    pub fn albedo(&self) -> (c: Color)
        ensures
            c == self.spec_albedo(),
    {
        self.albedo
    }

    /// The roughness, between zero and one.
    #[verifier::when_used_as_spec(spec_fuzz)]
    pub fn fuzz(&self) -> (f: Scalar)
        ensures
            f == self.spec_fuzz(),
            0 <= f@ <= ONE_KEY,
    {
        proof {
            use_type_invariant(self);
        }
        self.fuzz
    }
}

impl Dielectric {
    #[verifier::type_invariant]
    spec fn index_positive(self) -> bool {
        self.ir@ > 0
    }

    pub closed spec fn spec_refractive_index(&self) -> Scalar {
        self.ir
    }

    /// A dielectric with the given refractive index, which must be positive.
    pub fn new(ir: Scalar) -> (r: Result<Dielectric, ConfigError>)
        ensures
            r is Ok <==> ir@ > 0,
            r matches Ok(d) ==> d.spec_refractive_index() == ir,
            r matches Err(e) ==> e == ConfigError::NonPositiveRefractiveIndex,
    {
        if ir.key() > 0 {
            Ok(Dielectric { ir })
        } else {
            Err(ConfigError::NonPositiveRefractiveIndex)
        }
    }

    /// The refractive index, above zero.
    #[verifier::when_used_as_spec(spec_refractive_index)]
    pub fn refractive_index(&self) -> (i: Scalar)
        ensures
            i == self.spec_refractive_index(),
            i@ > 0,
    {
        proof {
            use_type_invariant(self);
        }
        self.ir
    }
}

/// The keys of the attenuation that lets all light through: one per channel.
pub open spec fn white() -> Seq<int> {
    seq![ONE_KEY as int, ONE_KEY as int, ONE_KEY as int]
}

impl Proposal {
    /// Whether this proposal was evaluated for a material of `material`'s kind.
    pub open spec fn fits(&self, material: &Material) -> bool {
        match (*self, *material) {
            (Proposal::Diffuse { .. }, Material::Lambertian(_)) => true,
            (Proposal::Mirror { .. }, Material::Metal(_)) => true,
            (Proposal::Glass { .. }, Material::Dielectric(_)) => true,
            _ => false,
        }
    }

    /// The direction that leaves a surface whose normal is `normal`.
    ///
    /// A diffuse direction too short to point anywhere gives way to the
    /// normal. A metal leaves along what was proposed, also where that points
    /// into the surface: such a path is not cut off here, its later bounces
    /// darken it. A dielectric reflects when the refraction ratio times the
    /// sine of incidence is above one, and refracts otherwise; at exactly one
    /// it refracts.
    pub open spec fn outgoing(&self, normal: Vec3) -> Vec3 {
        match *self {
            Proposal::Diffuse { direction } => if all_near_zero(direction@) {
                normal
            } else {
                direction
            },
            Proposal::Mirror { direction } => direction,
            Proposal::Glass { ratio_sine, reflected, refracted } => if ratio_sine@ > ONE_KEY {
                reflected
            } else {
                refracted
            },
        }
    }
}

/// No material returns more light than arrives: in every channel the
/// attenuation of a diffuse or metal surface is no more than its albedo, and
/// that of a dielectric is one.
pub proof fn lemma_attenuation_within_albedo(material: Material, channel: int)
    requires
        0 <= channel < 3,
    ensures
        material matches Material::Lambertian(l) ==> material.attenuation()[channel]
            <= l.spec_albedo()@[channel],
        material matches Material::Metal(m) ==> material.attenuation()[channel]
            <= m.spec_albedo()@[channel],
        material is Dielectric ==> material.attenuation()[channel] == ONE_KEY,
{
}

impl Material {
    /// The keys of the colour by which this material multiplies the light of
    /// the scattered ray: the albedo of a diffuse or metal surface, white for
    /// a dielectric.
    pub open spec fn attenuation(&self) -> Seq<int> {
        match *self {
            Material::Lambertian(l) => l.spec_albedo()@,
            Material::Metal(m) => m.spec_albedo()@,
            Material::Dielectric(_) => white(),
        }
    }

    /// Scatters a ray that struck this material at `rec`.
    ///
    /// Returns the attenuation and the scattered ray: it starts at the point
    /// of the hit and leaves along `proposal.outgoing(rec.normal)`. Every
    /// material scatters every ray; `None` only tells that the proposal was
    /// evaluated for another kind of material.
    pub fn scatter(&self, rec: &HitRecord, proposal: &Proposal) -> (r: Option<(Color, Ray)>)
        ensures
            r is Some <==> proposal.fits(self),
            r matches Some(s) ==> s.0@ == self.attenuation() && s.1.origin == rec.point
                && s.1.direction == proposal.outgoing(rec.normal),
    {
        match (self, proposal) {
            (Material::Lambertian(l), Proposal::Diffuse { direction }) => {
                let scatter_direction = if direction.near_zero() {
                    rec.normal
                } else {
                    *direction
                };
                Some((l.albedo(), Ray::new(rec.point, scatter_direction)))
            },
            (Material::Metal(m), Proposal::Mirror { direction }) => {
                Some((m.albedo(), Ray::new(rec.point, *direction)))
            },
            (
                Material::Dielectric(_),
                Proposal::Glass { ratio_sine, reflected, refracted },
            ) => {
                let attenuation = Color::new(Scalar::one(), Scalar::one(), Scalar::one());
                let cannot_refract = ratio_sine.key() > ONE_KEY;
                let direction = if cannot_refract {
                    *reflected
                } else {
                    *refracted
                };
                Some((attenuation, Ray::new(rec.point, direction)))
            },
            _ => None,
        }
    }
}

} // verus!
