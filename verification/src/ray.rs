//! Rays and the record of where one struck a surface.

use crate::material::Lambertian;
use crate::material::Material;
use crate::units::point::Point;
use crate::units::scalar::Scalar;
use crate::units::vec3::Vec3;
use crate::units::vec3::negated;
use vstd::prelude::*;

verus! {

/// The line `origin + t * direction`. The direction need not have unit length.
#[derive(Clone, Copy, Debug)]
pub struct Ray {
    pub origin: Point,
    pub direction: Vec3,
}

impl Ray {
    pub fn new(origin: Point, direction: Vec3) -> (r: Ray)
        ensures
            r == (Ray { origin, direction }),
    {
        Ray { origin, direction }
    }

    pub fn origin(&self) -> (p: Point)
        ensures
            p == self.origin,
    {
        self.origin
    }

    pub fn direction(&self) -> (d: Vec3)
        ensures
            d == self.direction,
    {
        self.direction
    }
}

/// Where a ray struck a surface.
///
/// `normal` is the surface normal turned against the ray, `t` the ray
/// parameter of the hit, and `front_face` tells whether the geometric outward
/// normal already faced the ray.
#[derive(Clone, Copy, Debug)]
pub struct HitRecord {
    pub point: Point,
    pub normal: Vec3,
    pub material: Material,
    pub t: Scalar,
    pub front_face: bool,
}

impl HitRecord {
    /// A record at `point` with parameter `t`, not yet oriented: it carries a
    /// black diffuse material and counts as struck from behind.
    pub fn new(point: Point, normal: Vec3, t: Scalar) -> (rec: HitRecord)
        ensures
            rec.point == point,
            rec.normal == normal,
            rec.t == t,
            !rec.front_face,
            rec.material matches Material::Lambertian(l) && l.spec_albedo()@ == seq![0int, 0, 0],
    {
        let black = Vec3::new(Scalar::zero(), Scalar::zero(), Scalar::zero());
        HitRecord {
            point,
            normal,
            t,
            material: Material::Lambertian(Lambertian::new(black)),
            front_face: false,
        }
    }

    /// Orients the record against the ray.
    ///
    /// `direction_dot_outward` is the dot product of the ray's direction with
    /// `outward_normal`. The front face was struck exactly when it is
    /// negative; the stored normal is then the outward normal, and its
    /// opposite otherwise.
    pub fn set_face_normal(&mut self, direction_dot_outward: Scalar, outward_normal: &Vec3)
        ensures
            final(self).front_face == (direction_dot_outward@ < 0),
            final(self).normal@ == (if direction_dot_outward@ < 0 {
                outward_normal@
            } else {
                negated(outward_normal@)
            }),
            final(self).point == old(self).point,
            final(self).material == old(self).material,
            final(self).t == old(self).t,
    {
        self.front_face = direction_dot_outward.key() < 0;
        self.normal = if self.front_face {
            *outward_normal
        } else {
            outward_normal.neg()
        };
    }

    pub fn normal(&self) -> (n: Vec3)
        ensures
            n == self.normal,
    {
        self.normal
    }

    pub fn t(&self) -> (t: Scalar)
        ensures
            t == self.t,
    {
        self.t
    }

    pub fn p(&self) -> (p: Point)
        ensures
            p == self.point,
    {
        self.point
    }

    pub fn front_face(&self) -> (f: bool)
        ensures
            f == self.front_face,
    {
        self.front_face
    }
}

/// The dot product of the ray's direction with the normal that a record
/// stores, given its dot product with the outward normal: the same where the
/// front face was struck, the opposite where the normal was turned.
pub open spec fn stored_dot(direction_dot_outward: int) -> int {
    if direction_dot_outward < 0 {
        direction_dot_outward
    } else {
        -direction_dot_outward
    }
}

/// The stored normal never points along the ray.
pub proof fn lemma_stored_normal_opposes_ray(direction_dot_outward: int)
    ensures
        stored_dot(direction_dot_outward) <= 0,
        stored_dot(direction_dot_outward) < 0 <==> direction_dot_outward != 0,
{
}

/// Something a ray can strike.
///
/// A primitive is immutable once it is part of a scene, so what it reports is
/// a function of the ray and the range alone: `intersect` names it. An
/// implementation evaluates the intersection numerically; it owes that a
/// reported hit lies within the range it was asked for. An implementation
/// that is compiled without being verified is taken at its word: what is
/// proved of a scene holds as far as its primitives keep this contract. Such
/// an implementation gives `intersect` the body of `hit`.
pub trait Hittable {
    /// What this primitive reports for `ray` within `[t_min, t_max]`.
    spec fn intersect(&self, ray: Ray, t_min: Scalar, t_max: Scalar) -> Option<HitRecord>;

    /// The hit of `ray` on this primitive with a parameter in
    /// `[t_min, t_max]`, if there is one.
    fn hit(&self, ray: &Ray, t_min: Scalar, t_max: Scalar) -> (r: Option<HitRecord>)
        ensures
            r == self.intersect(*ray, t_min, t_max),
            r matches Some(rec) ==> t_min@ <= rec.t@ <= t_max@,
    ;
}

/// The outcome of testing the primitives of `objects` in order, each against
/// the range that ends at the closest hit found before it.
pub open spec fn scan<H: Hittable>(objects: Seq<H>, ray: Ray, t_min: Scalar, t_max: Scalar)
    -> Option<HitRecord>
    decreases objects.len(),
{
    if objects.len() == 0 {
        None
    } else {
        let before = scan(objects.drop_last(), ray, t_min, t_max);
        let bound = match before {
            Some(rec) => rec.t,
            None => t_max,
        };
        match objects.last().intersect(ray, t_min, bound) {
            Some(rec) => Some(rec),
            None => before,
        }
    }
}

/// Whether narrowing the range only ever hides a primitive's hit: asked for a
/// range that ends at `bound` instead of `t_max`, the primitive reports the
/// same hit if that lies within the bound and nothing otherwise.
pub open spec fn narrows<H: Hittable>(object: H, ray: Ray, t_min: Scalar, t_max: Scalar) -> bool {
    forall|bound: Scalar|
        bound@ <= t_max@ ==> #[trigger] object.intersect(ray, t_min, bound) == (match object.intersect(
            ray,
            t_min,
            t_max,
        ) {
            Some(rec) => if rec.t@ <= bound@ {
                Some(rec)
            } else {
                None
            },
            None => None,
        })
}

/// Whether `found` is the nearest of `answers`: no answer at all if `found` is
/// `None`, and otherwise the last of the answers with the smallest parameter.
pub open spec fn is_nearest(answers: Seq<Option<HitRecord>>, found: Option<HitRecord>) -> bool {
    match found {
        None => forall|i: int| 0 <= i < answers.len() ==> answers[i] is None,
        Some(rec) => exists|i: int|
            {
                &&& 0 <= i < answers.len()
                &&& #[trigger] answers[i] == Some(rec)
                &&& forall|j: int|
                    0 <= j < i ==> (#[trigger] answers[j] matches Some(other) ==> rec.t@
                        <= other.t@)
                &&& forall|j: int|
                    i < j < answers.len() ==> (#[trigger] answers[j] matches Some(other)
                        ==> rec.t@ < other.t@)
            },
    }
}

/// What each primitive of `objects` reports on its own for the full range.
pub open spec fn answers<H: Hittable>(objects: Seq<H>, ray: Ray, t_min: Scalar, t_max: Scalar)
    -> Seq<Option<HitRecord>> {
    Seq::new(objects.len(), |i: int| objects[i].intersect(ray, t_min, t_max))
}

/// Testing each primitive against the range narrowed so far finds what
/// testing every primitive against the full range and keeping the nearest
/// would find, as long as narrowing the range only ever hides a hit.
pub proof fn lemma_scan_finds_nearest<H: Hittable>(
    objects: Seq<H>,
    ray: Ray,
    t_min: Scalar,
    t_max: Scalar,
)
    requires
        forall|i: int| 0 <= i < objects.len() ==> narrows(#[trigger] objects[i], ray, t_min, t_max),
    ensures
        is_nearest(answers(objects, ray, t_min, t_max), scan(objects, ray, t_min, t_max)),
    decreases objects.len(),
{
    let all = answers(objects, ray, t_min, t_max);
    if objects.len() > 0 {
        let init = objects.drop_last();
        let last = objects.last();
        let n = init.len() as int;
        assert forall|i: int| 0 <= i < init.len() implies narrows(
            #[trigger] init[i],
            ray,
            t_min,
            t_max,
        ) by {
            assert(init[i] == objects[i]);
        }
        lemma_scan_finds_nearest(init, ray, t_min, t_max);
        let earlier = answers(init, ray, t_min, t_max);
        assert forall|j: int| 0 <= j < n implies all[j] == earlier[j] by {
            assert(init[j] == objects[j]);
        }
        assert(narrows(objects[n], ray, t_min, t_max));
        // Asked for the full range, the last primitive reports a hit within it.
        let full = last.intersect(ray, t_min, t_max);
        assert(all[n] == full);
        assert(full matches Some(rec) ==> rec.t@ <= t_max@);
        match scan(init, ray, t_min, t_max) {
            None => {},
            Some(best) => {
                let i = choose|i: int|
                    {
                        &&& 0 <= i < earlier.len()
                        &&& #[trigger] earlier[i] == Some(best)
                        &&& forall|j: int|
                            0 <= j < i ==> (#[trigger] earlier[j] matches Some(other) ==> best.t@
                                <= other.t@)
                        &&& forall|j: int|
                            i < j < earlier.len() ==> (#[trigger] earlier[j] matches Some(other)
                                ==> best.t@ < other.t@)
                    };
                // The best hit so far lies within the full range as well.
                assert(narrows(objects[i], ray, t_min, t_max));
                assert(init[i].intersect(ray, t_min, t_max) == Some(best));
                assert(best.t@ <= t_max@);
                match last.intersect(ray, t_min, best.t) {
                    Some(rec) => {
                        assert(all[n] == Some(rec));
                    },
                    None => {
                        assert(all[i] == Some(best));
                    },
                }
            },
        }
    }
}

/// The primitives of a scene, in the order in which they were added.
pub struct Hittables<H: Hittable> {
    objects: Vec<H>,
}

impl<H: Hittable> View for Hittables<H> {
    type V = Seq<H>;

    closed spec fn view(&self) -> Seq<H> {
        self.objects@
    }
}

impl<H: Hittable> Hittables<H> {
    /// An empty scene.
    pub fn new() -> (world: Self)
        ensures
            world@ == Seq::<H>::empty(),
    {
        Hittables { objects: Vec::new() }
    }

    /// Adds a primitive behind those already there.
    pub fn add(&mut self, object: H)
        ensures
            final(self)@ == old(self)@.push(object),
    {
        self.objects.push(object);
    }

    /// The number of primitives.
    pub fn len(&self) -> (n: usize)
        ensures
            n == self@.len(),
    {
        self.objects.len()
    }

    /// The nearest hit of `ray` on the scene with a parameter in
    /// `[t_min, t_max]`.
    ///
    /// The primitives are tested in order, each against the range that ends
    /// at the closest hit so far. Where narrowing the range only ever hides a
    /// primitive's hit, the result is the nearest of what the primitives
    /// report for the full range, and the last of them among equally near
    /// ones.
    pub fn hit(&self, ray: &Ray, t_min: Scalar, t_max: Scalar) -> (r: Option<HitRecord>)
        ensures
            r == scan(self@, *ray, t_min, t_max),
            r matches Some(rec) ==> t_min@ <= rec.t@ <= t_max@,
            (forall|i: int| 0 <= i < self@.len() ==> narrows(#[trigger] self@[i], *ray, t_min, t_max))
                ==> is_nearest(answers(self@, *ray, t_min, t_max), r),
    {
        let mut hit_anything: Option<HitRecord> = None;
        let mut closest_so_far = t_max;
        let n: usize = self.objects.len();
        let mut i: usize = 0;
        while i < n
            invariant
                i <= n,
                n == self.objects@.len(),
                hit_anything == scan(self.objects@.take(i as int), *ray, t_min, t_max),
                closest_so_far == (match hit_anything {
                    Some(rec) => rec.t,
                    None => t_max,
                }),
                hit_anything matches Some(rec) ==> t_min@ <= rec.t@ <= t_max@,
            decreases n - i,
        {
            proof {
                assert(self.objects@.take(i + 1).drop_last() =~= self.objects@.take(i as int));
            }
            if let Some(hit_record) = self.objects[i].hit(ray, t_min, closest_so_far) {
                closest_so_far = hit_record.t;
                hit_anything = Some(hit_record);
            }
            i = i + 1;
        }
        proof {
            assert(self.objects@.take(n as int) =~= self.objects@);
            if forall|i: int|
                0 <= i < self@.len() ==> narrows(#[trigger] self@[i], *ray, t_min, t_max) {
                lemma_scan_finds_nearest(self@, *ray, t_min, t_max);
            }
        }
        hit_anything
    }
}

} // verus!
