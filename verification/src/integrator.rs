//! The step of the recursive integrator.
//!
//! Tracing a ray asks the scene for the nearest hit, lets the struck material
//! scatter the ray, and traces the scattered ray with a budget one smaller.
//! A ray that strikes nothing sees the background, a blend from white at the
//! horizon to sky blue at the zenith. What one such step ends in is decided
//! here; the caller multiplies the colours along the path and evaluates the
//! blend.

use crate::ray::HitRecord;
use crate::ray::Hittable;
use crate::ray::Hittables;
use crate::ray::Ray;
use crate::ray::scan;
use crate::units::color::Color;
use crate::units::scalar::INFINITY_KEY;
use crate::units::scalar::ONE_KEY;
use crate::units::scalar::SHADOW_BIAS_KEY;
use crate::units::scalar::Scalar;
use vstd::prelude::*;

verus! {

/// Key of `0.5`, the red of the sky.
pub const SKY_RED_KEY: i64 = 0x3FE0_0000_0000_0000;

/// Key of `0.7`, the green of the sky.
pub const SKY_GREEN_KEY: i64 = 0x3FE6_6666_6666_6666;

/// What tracing one ray ends in.
#[derive(Clone, Copy, Debug)]
pub enum Outcome {
    /// The budget of the path is used up: the ray contributes `color`, which
    /// is black.
    Exhausted { color: Color },
    /// The ray struck the scene at `record`: its colour is the attenuation of
    /// the struck material times the colour of the scattered ray, traced with
    /// the budget `budget`, which is one smaller than this step's.
    Scattered { record: HitRecord, budget: i32 },
    /// The ray left the scene: it contributes `(1 - t) * horizon + t * zenith`
    /// with `t = (y + 1) / 2` for the height `y` of its unit direction. The
    /// horizon is white and the zenith is the blue `(0.5, 0.7, 1)`.
    Escaped { horizon: Color, zenith: Color },
}

/// Black, the colour of a path whose budget is used up.
pub open spec fn black() -> Color {
    Color { x: Scalar::with_key(0), y: Scalar::with_key(0), z: Scalar::with_key(0) }
}

/// The white of the horizon.
pub open spec fn horizon() -> Color {
    Color {
        x: Scalar::with_key(ONE_KEY as int),
        y: Scalar::with_key(ONE_KEY as int),
        z: Scalar::with_key(ONE_KEY as int),
    }
}

/// The blue of the zenith, `(0.5, 0.7, 1)`.
pub open spec fn zenith() -> Color {
    Color {
        x: Scalar::with_key(SKY_RED_KEY as int),
        y: Scalar::with_key(SKY_GREEN_KEY as int),
        z: Scalar::with_key(ONE_KEY as int),
    }
}

/// The outcome of a step with budget `depth` whose query of the scene gave
/// `found`.
pub open spec fn outcome(found: Option<HitRecord>, depth: i32) -> Outcome {
    if depth <= 0 {
        Outcome::Exhausted { color: black() }
    } else {
        match found {
            Some(record) => Outcome::Scattered { record, budget: (depth - 1) as i32 },
            None => Outcome::Escaped { horizon: horizon(), zenith: zenith() },
        }
    }
}

/// The number of times a path with budget `depth` is scattered when the
/// `k`-th query of the scene along it gives `found[k]`.
pub open spec fn scatterings(depth: i32, found: Seq<Option<HitRecord>>) -> nat
    decreases found.len(),
{
    if found.len() == 0 {
        0
    } else {
        match outcome(found[0], depth) {
            Outcome::Scattered { budget, .. } => 1 + scatterings(budget, found.skip(1)),
            _ => 0,
        }
    }
}

/// Whatever the scene answers, a path with budget `depth` is scattered at
/// most `depth` times, and not at all without a budget.
pub proof fn lemma_scatterings_bounded(depth: i32, found: Seq<Option<HitRecord>>)
    ensures
        scatterings(depth, found) <= (if depth > 0 {
            depth
        } else {
            0
        }),
    decreases found.len(),
{
    if found.len() > 0 && depth > 0 {
        lemma_scatterings_bounded((depth - 1) as i32, found.skip(1));
    }
}

/// One step of tracing `r` through `world` with budget `depth`.
///
/// Without a budget the step is exhausted, whatever the scene holds.
/// Otherwise the scene is asked for the nearest hit with a parameter from the
/// shadow bias `0.001` up to infinity.
pub fn ray_color<H: Hittable>(r: &Ray, world: &Hittables<H>, depth: i32) -> (o: Outcome)
    ensures
        o == outcome(
            scan(
                world@,
                *r,
                Scalar::with_key(SHADOW_BIAS_KEY as int),
                Scalar::with_key(INFINITY_KEY as int),
            ),
            depth,
        ),
{
    if depth <= 0 {
        let zero = Scalar::zero();
        return Outcome::Exhausted { color: Color::new(zero, zero, zero) };
    }
    match world.hit(r, Scalar::shadow_bias(), Scalar::infinity()) {
        Some(record) => Outcome::Scattered { record, budget: depth - 1 },
        None => {
            let one = Scalar::one();
            let red = Scalar::from_key(SKY_RED_KEY).unwrap();
            let green = Scalar::from_key(SKY_GREEN_KEY).unwrap();
            Outcome::Escaped {
                horizon: Color::new(one, one, one),
                zenith: Color::new(red, green, one),
            }
        },
    }
}

} // verus!
