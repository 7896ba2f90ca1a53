use rustracer::camera::basis_length;
use rustracer::error::ConfigError;
use rustracer::integrator::{ray_color, Outcome};
use rustracer::material::{Dielectric, Lambertian, Material, Metal, Proposal};
use rustracer::ray::{HitRecord, Hittable, Hittables, Ray};
use rustracer::scene::{choose_surface, keeps_clear, Surface};
use rustracer::sphere::Sphere;
use rustracer::units::scalar::Scalar;
use rustracer::units::vec3::Vec3;

type V = [f64; 3];

fn s(x: f64) -> Scalar {
    Scalar::from_bits(x.to_bits()).unwrap()
}

fn f(x: Scalar) -> f64 {
    f64::from_bits(x.to_bits())
}

fn key3(v: V) -> Vec3 {
    Vec3::new(s(v[0]), s(v[1]), s(v[2]))
}

fn val3(v: Vec3) -> V {
    [f(v.x()), f(v.y()), f(v.z())]
}

fn sub(a: V, b: V) -> V {
    [a[0] - b[0], a[1] - b[1], a[2] - b[2]]
}

fn scale(a: V, k: f64) -> V {
    [a[0] * k, a[1] * k, a[2] * k]
}

fn plus(a: V, b: V) -> V {
    [a[0] + b[0], a[1] + b[1], a[2] + b[2]]
}

fn dot(a: V, b: V) -> f64 {
    a[0] * b[0] + a[1] * b[1] + a[2] * b[2]
}

fn ray(origin: V, direction: V) -> Ray {
    Ray::new(key3(origin), key3(direction))
}

fn grey() -> Material {
    Material::Lambertian(Lambertian::new(key3([0.5, 0.5, 0.5])))
}

/// A sphere that evaluates its intersection in floating point and leaves
/// every decision to the library.
struct Ball {
    shape: Sphere,
}

fn ball(center: V, radius: f64, material: Material) -> Ball {
    Ball { shape: Sphere::new(key3(center), s(radius), material).unwrap() }
}

impl Hittable for Ball {
    fn intersect(&self, ray: Ray, t_min: Scalar, t_max: Scalar) -> Option<HitRecord> {
        self.hit(&ray, t_min, t_max)
    }

    fn hit(&self, ray: &Ray, t_min: Scalar, t_max: Scalar) -> Option<HitRecord> {
        let center = val3(self.shape.center());
        let radius = f(self.shape.radius());
        let origin = val3(ray.origin());
        let direction = val3(ray.direction());
        let oc = sub(origin, center);
        let a = dot(direction, direction);
        let half_b = dot(oc, direction);
        let c = dot(oc, oc) - radius * radius;
        let discriminant = half_b * half_b - a * c;
        if !Sphere::has_real_roots(s(discriminant)) {
            return None;
        }
        let sqrtd = discriminant.sqrt();
        let near = (-half_b - sqrtd) / a;
        let far = (-half_b + sqrtd) / a;
        let root = f(Sphere::nearest_root(s(near), s(far), t_min, t_max)?);
        let point = plus(origin, scale(direction, root));
        let outward = scale(sub(point, center), 1.0 / radius);
        Some(self.shape.record(key3(point), key3(outward), s(root), s(dot(direction, outward))))
    }
}

/// A primitive that reports a fixed parameter whenever the range admits it.
struct Plate {
    t: f64,
    tag: f64,
}

impl Hittable for Plate {
    fn intersect(&self, ray: Ray, t_min: Scalar, t_max: Scalar) -> Option<HitRecord> {
        self.hit(&ray, t_min, t_max)
    }

    fn hit(&self, _ray: &Ray, t_min: Scalar, t_max: Scalar) -> Option<HitRecord> {
        let t = s(self.t);
        if t.lt(&t_min) || t_max.lt(&t) {
            None
        } else {
            Some(HitRecord::new(key3([self.tag, 0.0, 0.0]), key3([0.0, 0.0, 1.0]), t))
        }
    }
}

fn plates(ts: &[f64]) -> Hittables<Plate> {
    let mut world = Hittables::new();
    for (i, t) in ts.iter().enumerate() {
        world.add(Plate { t: *t, tag: i as f64 });
    }
    world
}

fn close(a: f64, b: f64) -> bool {
    (a - b).abs() < 1e-12
}

#[test]
fn sphere_refuses_a_radius_that_is_not_positive() {
    let c = key3([0.0, 0.0, 0.0]);
    assert_eq!(Sphere::new(c, s(0.0), grey()).unwrap_err(), ConfigError::NonPositiveRadius);
    assert_eq!(Sphere::new(c, s(-0.0), grey()).unwrap_err(), ConfigError::NonPositiveRadius);
    assert_eq!(Sphere::new(c, s(-2.0), grey()).unwrap_err(), ConfigError::NonPositiveRadius);
    let ok = Sphere::new(key3([1.0, 2.0, 3.0]), s(0.5), grey()).unwrap();
    assert_eq!(val3(ok.center()), [1.0, 2.0, 3.0]);
    assert_eq!(f(ok.radius()), 0.5);
    assert!(matches!(ok.material(), Material::Lambertian(_)));
}

#[test]
fn metal_refuses_a_fuzz_outside_zero_to_one() {
    let a = key3([0.8, 0.6, 0.2]);
    assert_eq!(Metal::new(a, s(-0.1)).unwrap_err(), ConfigError::FuzzOutOfRange);
    assert_eq!(Metal::new(a, s(1.0 + f64::EPSILON)).unwrap_err(), ConfigError::FuzzOutOfRange);
    assert_eq!(Metal::new(a, s(f64::INFINITY)).unwrap_err(), ConfigError::FuzzOutOfRange);
    let m = Metal::new(a, s(0.3)).unwrap();
    assert_eq!(f(m.fuzz()), 0.3);
    assert_eq!(val3(m.albedo()), [0.8, 0.6, 0.2]);
    assert!(Metal::new(a, s(0.0)).is_ok());
    assert!(Metal::new(a, s(1.0)).is_ok());
}

#[test]
fn dielectric_refuses_an_index_that_is_not_positive() {
    assert_eq!(
        Dielectric::new(s(0.0)).unwrap_err(),
        ConfigError::NonPositiveRefractiveIndex
    );
    assert_eq!(
        Dielectric::new(s(-1.5)).unwrap_err(),
        ConfigError::NonPositiveRefractiveIndex
    );
    assert_eq!(f(Dielectric::new(s(1.5)).unwrap().refractive_index()), 1.5);
}

#[test]
fn discriminant_decides_whether_there_are_roots() {
    assert!(Sphere::has_real_roots(s(0.0)));
    assert!(Sphere::has_real_roots(s(-0.0)));
    assert!(Sphere::has_real_roots(s(3.0)));
    assert!(Sphere::has_real_roots(s(5e-324)));
    assert!(!Sphere::has_real_roots(s(-5e-324)));
    assert!(!Sphere::has_real_roots(s(-1.0)));
}

#[test]
fn near_root_is_tried_before_the_far_root() {
    let pick = |near: f64, far: f64, lo: f64, hi: f64| {
        Sphere::nearest_root(s(near), s(far), s(lo), s(hi)).map(f)
    };
    assert_eq!(pick(0.5, 1.5, 0.001, f64::INFINITY), Some(0.5));
    assert_eq!(pick(-0.5, 1.5, 0.001, f64::INFINITY), Some(1.5));
    assert_eq!(pick(-1.5, -0.5, 0.001, f64::INFINITY), None);
    assert_eq!(pick(0.5, 1.5, 0.001, 0.4), None);
    assert_eq!(pick(0.5, 1.5, 0.6, 1.4), None);
    assert_eq!(pick(0.5, 1.5, 0.6, 1.5), Some(1.5));
    // Both ends of the range belong to it.
    assert_eq!(pick(0.5, 1.5, 0.5, 1.0), Some(0.5));
    assert_eq!(pick(0.5, 1.5, 0.0, 0.5), Some(0.5));
    assert_eq!(pick(0.0005, 1.5, 0.001, f64::INFINITY), Some(1.5));
}

#[test]
fn record_is_oriented_against_the_ray() {
    let shape = Sphere::new(key3([0.0, 0.0, -1.0]), s(0.5), grey()).unwrap();
    let front = shape.record(key3([0.0, 0.0, -0.5]), key3([0.0, 0.0, 1.0]), s(0.5), s(-1.0));
    assert!(front.front_face());
    assert_eq!(val3(front.normal()), [0.0, 0.0, 1.0]);
    assert_eq!(f(front.t()), 0.5);
    assert_eq!(val3(front.p()), [0.0, 0.0, -0.5]);
    assert!(matches!(front.material, Material::Lambertian(_)));

    let back = shape.record(key3([0.0, 0.0, -1.5]), key3([0.0, 0.0, -1.0]), s(1.5), s(1.0));
    assert!(!back.front_face());
    assert_eq!(val3(back.normal()), [0.0, 0.0, 1.0]);

    let grazing = shape.record(key3([0.5, 0.0, -1.0]), key3([1.0, 0.0, 0.0]), s(1.0), s(0.0));
    assert!(!grazing.front_face());
    assert_eq!(val3(grazing.normal()), [-1.0, 0.0, 0.0]);
}

#[test]
fn new_record_is_unoriented_and_black() {
    let rec = HitRecord::new(key3([1.0, 2.0, 3.0]), key3([0.0, 1.0, 0.0]), s(4.0));
    assert_eq!(val3(rec.point), [1.0, 2.0, 3.0]);
    assert_eq!(val3(rec.normal), [0.0, 1.0, 0.0]);
    assert_eq!(f(rec.t), 4.0);
    assert!(!rec.front_face);
    match rec.material {
        Material::Lambertian(l) => assert_eq!(val3(l.albedo()), [0.0, 0.0, 0.0]),
        _ => panic!("a new record carries a diffuse material"),
    }
}

#[test]
fn set_face_normal_keeps_or_turns_the_outward_normal() {
    let mut rec = HitRecord::new(key3([0.0, 0.0, 2.0]), key3([0.0, 0.0, 2.0]), s(0.0));
    let outward = key3([0.0, 0.0, 1.0]);
    let direction = [0.0, 0.0, 1.0];
    rec.set_face_normal(s(dot(direction, val3(outward))), &outward);
    assert!(!rec.front_face);
    assert_eq!(val3(rec.normal), [0.0, 0.0, -1.0]);
    assert_eq!(val3(rec.point), [0.0, 0.0, 2.0]);
    assert_eq!(f(rec.t), 0.0);

    let direction = [0.0, 0.0, -1.0];
    rec.set_face_normal(s(dot(direction, val3(outward))), &outward);
    assert!(rec.front_face);
    assert_eq!(val3(rec.normal), [0.0, 0.0, 1.0]);
}

#[test]
fn ray_holds_its_origin_and_direction() {
    let r = ray([1.0, 2.0, 3.0], [0.0, -1.0, 0.5]);
    assert_eq!(val3(r.origin()), [1.0, 2.0, 3.0]);
    assert_eq!(val3(r.direction()), [0.0, -1.0, 0.5]);
}

#[test]
fn empty_scene_is_never_hit() {
    let world: Hittables<Plate> = Hittables::new();
    assert_eq!(world.len(), 0);
    assert!(world.hit(&ray([0.0; 3], [0.0, 0.0, -1.0]), s(0.001), s(f64::INFINITY)).is_none());
}

#[test]
fn nearest_primitive_wins_whatever_the_order() {
    let r = ray([0.0; 3], [0.0, 0.0, -1.0]);
    let orders: [[f64; 3]; 6] = [
        [1.0, 2.0, 3.0],
        [1.0, 3.0, 2.0],
        [2.0, 1.0, 3.0],
        [2.0, 3.0, 1.0],
        [3.0, 1.0, 2.0],
        [3.0, 2.0, 1.0],
    ];
    for order in orders.iter() {
        let world = plates(order);
        assert_eq!(world.len(), 3);
        let rec = world.hit(&r, s(0.001), s(f64::INFINITY)).unwrap();
        assert_eq!(f(rec.t), 1.0);
        let place = order.iter().position(|t| *t == 1.0).unwrap();
        assert_eq!(f(rec.point.x()), place as f64);
    }
}

#[test]
fn range_hides_what_lies_outside() {
    let r = ray([0.0; 3], [0.0, 0.0, -1.0]);
    let world = plates(&[0.0005, 5.0, 2.0, 9.0]);
    assert_eq!(f(world.hit(&r, s(0.001), s(f64::INFINITY)).unwrap().t), 2.0);
    assert_eq!(f(world.hit(&r, s(2.5), s(f64::INFINITY)).unwrap().t), 5.0);
    assert_eq!(f(world.hit(&r, s(5.5), s(9.0)).unwrap().t), 9.0);
    assert_eq!(f(world.hit(&r, s(0.0), s(1.0)).unwrap().t), 0.0005);
    assert!(world.hit(&r, s(0.001), s(1.0)).is_none());
    assert!(world.hit(&r, s(9.5), s(f64::INFINITY)).is_none());
    assert!(world.hit(&r, s(3.0), s(1.0)).is_none());
}

#[test]
fn among_equally_near_primitives_the_last_wins() {
    let r = ray([0.0; 3], [0.0, 0.0, -1.0]);
    let world = plates(&[4.0, 2.0, 7.0, 2.0, 3.0]);
    let rec = world.hit(&r, s(0.001), s(f64::INFINITY)).unwrap();
    assert_eq!(f(rec.t), 2.0);
    assert_eq!(f(rec.point.x()), 3.0);
}

#[test]
fn ray_through_image_centre_hits_the_small_sphere() {
    let mut world = Hittables::new();
    world.add(ball([0.0, -100.5, -1.0], 100.0, grey()));
    world.add(ball([0.0, 0.0, -1.0], 0.5, grey()));
    let r = ray([0.0, 0.0, 0.0], [0.0, 0.0, -1.0]);

    let rec = world.hit(&r, s(0.001), s(f64::INFINITY)).unwrap();
    assert!(close(f(rec.t), 0.5));
    let n = val3(rec.normal);
    assert!(close(n[0], 0.0) && close(n[1], 0.0) && close(n[2], 1.0));
    assert!(rec.front_face);
    let p = val3(rec.point);
    assert!(close(dot(sub(p, [0.0, 0.0, -1.0]), sub(p, [0.0, 0.0, -1.0])).sqrt(), 0.5));

    match ray_color(&r, &world, 1) {
        Outcome::Scattered { record, budget } => {
            assert!(close(f(record.t), 0.5));
            assert!(close(val3(record.normal)[2], 1.0));
            assert_eq!(budget, 0);
            match record.material {
                Material::Lambertian(l) => assert_eq!(val3(l.albedo()), [0.5, 0.5, 0.5]),
                _ => panic!("the small sphere is diffuse"),
            }
        }
        _ => panic!("the ray strikes the small sphere"),
    }
}

#[test]
fn spheres_are_hit_in_the_same_place_in_either_order() {
    let r = ray([0.0, 0.0, 0.0], [0.0, -0.2, -1.0]);
    let mut one = Hittables::new();
    one.add(ball([0.0, -100.5, -1.0], 100.0, grey()));
    one.add(ball([0.0, 0.0, -1.0], 0.5, grey()));
    let mut other = Hittables::new();
    other.add(ball([0.0, 0.0, -1.0], 0.5, grey()));
    other.add(ball([0.0, -100.5, -1.0], 100.0, grey()));
    let a = one.hit(&r, s(0.001), s(f64::INFINITY)).unwrap();
    let b = other.hit(&r, s(0.001), s(f64::INFINITY)).unwrap();
    assert_eq!(f(a.t), f(b.t));
    assert_eq!(val3(a.point), val3(b.point));
    assert_eq!(val3(a.normal), val3(b.normal));
}

#[test]
fn hit_inside_a_sphere_is_on_the_back_face() {
    let mut world = Hittables::new();
    world.add(ball([0.0, 0.0, 0.0], 2.0, grey()));
    let r = ray([0.0, 0.0, 0.0], [0.0, 0.0, -1.0]);
    let rec = world.hit(&r, s(0.001), s(f64::INFINITY)).unwrap();
    assert!(close(f(rec.t), 2.0));
    assert!(!rec.front_face);
    assert!(close(val3(rec.normal)[2], 1.0));
    assert!(dot(val3(r.direction()), val3(rec.normal)) <= 0.0);
}

#[test]
fn hit_parameter_lies_within_the_range() {
    let mut world = Hittables::new();
    world.add(ball([0.0, 0.0, -1.0], 0.5, grey()));
    world.add(ball([0.3, 0.1, -2.0], 0.7, grey()));
    world.add(ball([0.0, -100.5, -1.0], 100.0, grey()));
    let mut state: u64 = 12345;
    let mut seen = 0;
    for _ in 0..2000 {
        let mut next = || {
            state = state.wrapping_mul(6364136223846793005).wrapping_add(1442695040888963407);
            (state >> 11) as f64 / (1u64 << 53) as f64
        };
        let direction = [next() * 2.0 - 1.0, next() * 2.0 - 1.0, -1.0];
        let lo = next() * 0.5;
        let hi = lo + next() * 3.0;
        let r = ray([0.0, 0.0, 0.0], direction);
        if let Some(rec) = world.hit(&r, s(lo), s(hi)) {
            seen += 1;
            assert!(lo <= f(rec.t) && f(rec.t) <= hi);
            assert!(dot(direction, val3(rec.normal)) <= 0.0);
            assert_eq!(rec.front_face, {
                let n = val3(rec.normal);
                let outward = if rec.front_face { n } else { scale(n, -1.0) };
                dot(direction, outward) < 0.0
            });
        }
    }
    assert!(seen > 100);
}

/// The blend that an escaped ray contributes, evaluated as the caller does.
fn background(o: Outcome, r: &Ray) -> V {
    match o {
        Outcome::Escaped { horizon, zenith } => {
            assert_eq!(val3(horizon), [1.0, 1.0, 1.0]);
            assert_eq!(val3(zenith), [0.5, 0.7, 1.0]);
            let d = val3(r.direction());
            let unit = scale(d, 1.0 / dot(d, d).sqrt());
            let t = 0.5 * (unit[1] + 1.0);
            plus(scale(val3(horizon), 1.0 - t), scale(val3(zenith), t))
        }
        _ => panic!("the ray leaves the scene"),
    }
}

#[test]
fn trace_without_budget_is_exhausted() {
    let mut world = Hittables::new();
    world.add(ball([0.0, 0.0, -1.0], 0.5, grey()));
    let r = ray([0.0, 0.0, 0.0], [0.0, 0.0, -1.0]);
    let away = ray([0.0, 0.0, 0.0], [0.0, 1.0, 0.0]);
    for (probe, depth) in [(&r, 0), (&r, -1), (&r, i32::MIN), (&away, 0)] {
        match ray_color(probe, &world, depth) {
            Outcome::Exhausted { color } => assert_eq!(val3(color), [0.0, 0.0, 0.0]),
            _ => panic!("without a budget the ray is black"),
        }
    }
    assert!(matches!(ray_color(&r, &world, 1), Outcome::Scattered { budget: 0, .. }));
    assert!(matches!(ray_color(&r, &world, 50), Outcome::Scattered { budget: 49, .. }));
    assert!(matches!(
        ray_color(&r, &world, i32::MAX),
        Outcome::Scattered { budget: 2147483646, .. }
    ));
}

#[test]
fn ray_that_misses_escapes_to_the_background() {
    let empty: Hittables<Ball> = Hittables::new();
    let up = ray([0.0, 0.0, 0.0], [0.0, 1.0, 0.0]);
    let down = ray([0.0, 0.0, 0.0], [0.0, -1.0, 0.0]);
    assert_eq!(background(ray_color(&up, &empty, 5), &up), [0.5, 0.7, 1.0]);
    assert_eq!(background(ray_color(&down, &empty, 5), &down), [1.0, 1.0, 1.0]);
    let level = ray([0.0, 0.0, 0.0], [3.0, 0.0, -4.0]);
    assert_eq!(background(ray_color(&level, &empty, 1), &level), [0.75, 0.85, 1.0]);

    let mut world = Hittables::new();
    world.add(ball([0.0, 0.0, -1.0], 0.5, grey()));
    assert_eq!(background(ray_color(&up, &world, 5), &up), [0.5, 0.7, 1.0]);
}

#[test]
fn trace_ignores_hits_nearer_than_the_shadow_bias() {
    let r = ray([0.0; 3], [0.0, 0.0, -1.0]);
    let world = plates(&[0.0005]);
    assert!(matches!(ray_color(&r, &world, 3), Outcome::Escaped { .. }));
    let world = plates(&[0.0005, 0.001]);
    match ray_color(&r, &world, 3) {
        Outcome::Scattered { record, .. } => assert_eq!(f(record.t), 0.001),
        _ => panic!("a hit at the bias itself counts"),
    }
    let world = plates(&[f64::INFINITY]);
    match ray_color(&r, &world, 3) {
        Outcome::Scattered { record, .. } => assert_eq!(f(record.t), f64::INFINITY),
        _ => panic!("the range is closed above"),
    }
}

#[test]
fn path_is_scattered_at_most_as_often_as_its_budget() {
    // Two facing mirrors: every ray hits, so only the budget ends the path.
    let r = ray([0.0; 3], [0.0, 0.0, -1.0]);
    let world = plates(&[1.0]);
    for budget in 0..60 {
        let mut depth = budget;
        let mut scattered = 0;
        loop {
            match ray_color(&r, &world, depth) {
                Outcome::Scattered { budget, .. } => {
                    scattered += 1;
                    assert_eq!(budget, depth - 1);
                    depth = budget;
                }
                Outcome::Exhausted { .. } => break,
                Outcome::Escaped { .. } => panic!("the plate is always hit"),
            }
        }
        assert_eq!(scattered, budget);
    }
}

fn surface(normal: V) -> HitRecord {
    let mut rec = HitRecord::new(key3([1.0, 2.0, 3.0]), key3(normal), s(0.75));
    rec.front_face = true;
    rec
}

#[test]
fn lambertian_scatters_along_the_proposal_with_its_albedo() {
    let m = Material::Lambertian(Lambertian::new(key3([0.4, 0.2, 0.1])));
    let rec = surface([0.0, 1.0, 0.0]);
    let (attenuation, out) =
        m.scatter(&rec, &Proposal::Diffuse { direction: key3([0.3, 1.2, -0.4]) }).unwrap();
    assert_eq!(val3(attenuation), [0.4, 0.2, 0.1]);
    assert_eq!(val3(out.origin()), [1.0, 2.0, 3.0]);
    assert_eq!(val3(out.direction()), [0.3, 1.2, -0.4]);
}

#[test]
fn lambertian_falls_back_to_the_normal() {
    let m = Material::Lambertian(Lambertian::new(key3([0.4, 0.2, 0.1])));
    let rec = surface([0.0, 1.0, 0.0]);
    let (attenuation, out) =
        m.scatter(&rec, &Proposal::Diffuse { direction: key3([1e-9, -1e-9, 0.0]) }).unwrap();
    assert_eq!(val3(attenuation), [0.4, 0.2, 0.1]);
    assert_eq!(val3(out.direction()), [0.0, 1.0, 0.0]);
    let (_, out) =
        m.scatter(&rec, &Proposal::Diffuse { direction: key3([1e-9, 1e-8, 0.0]) }).unwrap();
    assert_eq!(val3(out.direction()), [1e-9, 1e-8, 0.0]);
}

#[test]
fn metal_scatters_along_the_proposal_with_its_albedo() {
    let m = Material::Metal(Metal::new(key3([0.7, 0.6, 0.5]), s(0.0)).unwrap());
    let rec = surface([0.0, 1.0, 0.0]);
    let (attenuation, out) =
        m.scatter(&rec, &Proposal::Mirror { direction: key3([0.6, 0.8, 0.0]) }).unwrap();
    assert_eq!(val3(attenuation), [0.7, 0.6, 0.5]);
    assert_eq!(val3(out.origin()), [1.0, 2.0, 3.0]);
    assert_eq!(val3(out.direction()), [0.6, 0.8, 0.0]);
    // A direction into the surface is passed on as it is.
    let (attenuation, out) =
        m.scatter(&rec, &Proposal::Mirror { direction: key3([0.6, -0.8, 0.0]) }).unwrap();
    assert_eq!(val3(attenuation), [0.7, 0.6, 0.5]);
    assert_eq!(val3(out.direction()), [0.6, -0.8, 0.0]);
}

#[test]
fn attenuation_never_exceeds_the_albedo() {
    let albedo = [0.9, 0.05, 0.33];
    let rec = surface([0.0, 1.0, 0.0]);
    let diffuse = Material::Lambertian(Lambertian::new(key3(albedo)));
    let metal = Material::Metal(Metal::new(key3(albedo), s(0.4)).unwrap());
    let up = key3([0.0, 2.0, 0.0]);
    let (a, _) = diffuse.scatter(&rec, &Proposal::Diffuse { direction: up }).unwrap();
    let (b, _) = metal.scatter(&rec, &Proposal::Mirror { direction: up }).unwrap();
    for i in 0..3 {
        assert!(val3(a)[i] <= albedo[i]);
        assert!(val3(b)[i] <= albedo[i]);
    }
}

fn glass(ratio_sine: f64) -> V {
    let m = Material::Dielectric(Dielectric::new(s(1.5)).unwrap());
    let rec = surface([0.0, 1.0, 0.0]);
    let proposal = Proposal::Glass {
        ratio_sine: s(ratio_sine),
        reflected: key3([1.0, 1.0, 0.0]),
        refracted: key3([1.0, -1.0, 0.0]),
    };
    let (attenuation, out) = m.scatter(&rec, &proposal).unwrap();
    assert_eq!(val3(attenuation), [1.0, 1.0, 1.0]);
    assert_eq!(val3(out.origin()), [1.0, 2.0, 3.0]);
    val3(out.direction())
}

#[test]
fn dielectric_reflects_only_above_one() {
    let reflected = [1.0, 1.0, 0.0];
    let refracted = [1.0, -1.0, 0.0];
    assert_eq!(glass(0.0), refracted);
    assert_eq!(glass(0.3), refracted);
    assert_eq!(glass(1.0 - 1e-9), refracted);
    assert_eq!(glass(f64::from_bits(1.0f64.to_bits() - 1)), refracted);
    assert_eq!(glass(1.0), refracted);
    assert_eq!(glass(f64::from_bits(1.0f64.to_bits() + 1)), reflected);
    assert_eq!(glass(1.0 + 1e-9), reflected);
    assert_eq!(glass(1.5), reflected);
    assert_eq!(glass(f64::INFINITY), reflected);
}

#[test]
fn surface_of_a_small_sphere_follows_its_draw() {
    assert_eq!(choose_surface(s(0.0)), Surface::Diffuse);
    assert_eq!(choose_surface(s(0.5)), Surface::Diffuse);
    assert_eq!(choose_surface(s(f64::from_bits(0.8f64.to_bits() - 1))), Surface::Diffuse);
    assert_eq!(choose_surface(s(0.8)), Surface::Metal);
    assert_eq!(choose_surface(s(0.9)), Surface::Metal);
    assert_eq!(choose_surface(s(f64::from_bits(0.95f64.to_bits() - 1))), Surface::Metal);
    assert_eq!(choose_surface(s(0.95)), Surface::Glass);
    assert_eq!(choose_surface(s(0.999)), Surface::Glass);
    let mut state: u64 = 99;
    for _ in 0..10_000 {
        state = state.wrapping_mul(6364136223846793005).wrapping_add(1442695040888963407);
        let x = (state >> 11) as f64 / (1u64 << 53) as f64;
        let expected = if x < 0.8 {
            Surface::Diffuse
        } else if x < 0.95 {
            Surface::Metal
        } else {
            Surface::Glass
        };
        assert_eq!(choose_surface(s(x)), expected);
    }
}

#[test]
fn small_sphere_keeps_clear_of_the_large_one() {
    assert!(keeps_clear(s(0.91)));
    assert!(keeps_clear(s(f64::from_bits(0.9f64.to_bits() + 1))));
    assert!(!keeps_clear(s(0.9)));
    assert!(!keeps_clear(s(0.5)));
    assert!(!keeps_clear(s(0.0)));
    assert!(keeps_clear(s(12.0)));
}

#[test]
fn camera_basis_needs_vectors_with_length() {
    assert_eq!(basis_length(s(0.0)).unwrap_err(), ConfigError::DegenerateCameraBasis);
    assert_eq!(basis_length(s(-0.0)).unwrap_err(), ConfigError::DegenerateCameraBasis);
    assert_eq!(f(basis_length(s(13.49)).unwrap()), 13.49);
    assert_eq!(f(basis_length(s(5e-324)).unwrap()), 5e-324);
}

#[test]
fn proposal_for_another_material_is_not_scattered() {
    let rec = surface([0.0, 1.0, 0.0]);
    let d = key3([0.0, 1.0, 0.0]);
    let diffuse = Material::Lambertian(Lambertian::new(d));
    let metal = Material::Metal(Metal::new(d, s(0.5)).unwrap());
    let glassy = Material::Dielectric(Dielectric::new(s(1.5)).unwrap());
    let proposals = [
        Proposal::Diffuse { direction: d },
        Proposal::Mirror { direction: d },
        Proposal::Glass { ratio_sine: s(0.5), reflected: d, refracted: d },
    ];
    for (m, material) in [diffuse, metal, glassy].iter().enumerate() {
        for (p, proposal) in proposals.iter().enumerate() {
            assert_eq!(material.scatter(&rec, proposal).is_some(), m == p);
        }
    }
}

/// The intersection of a ray with a sphere, decided in floating point alone:
/// the parameter, the stored normal and the face.
fn plain_hit(center: V, radius: f64, origin: V, direction: V, lo: f64, hi: f64) -> Option<(f64, V, bool)> {
    let oc = sub(origin, center);
    let a = dot(direction, direction);
    let half_b = dot(oc, direction);
    let c = dot(oc, oc) - radius * radius;
    let discriminant = half_b * half_b - a * c;
    if discriminant < 0.0 {
        return None;
    }
    let sqrtd = discriminant.sqrt();
    let mut root = (-half_b - sqrtd) / a;
    if root < lo || hi < root {
        root = (-half_b + sqrtd) / a;
        if root < lo || hi < root {
            return None;
        }
    }
    let point = plus(origin, scale(direction, root));
    let outward = scale(sub(point, center), 1.0 / radius);
    let front = dot(direction, outward) < 0.0;
    let normal = if front { outward } else { scale(outward, -1.0) };
    Some((root, normal, front))
}

#[test]
fn decisions_on_keys_agree_with_decisions_on_doubles() {
    let spheres: [(V, f64); 4] = [
        ([0.0, 0.0, -1.0], 0.5),
        ([0.3, 0.1, -2.0], 0.7),
        ([-1.0, 0.4, -1.5], 0.3),
        ([0.0, -100.5, -1.0], 100.0),
    ];
    let mut world = Hittables::new();
    for (center, radius) in spheres.iter() {
        world.add(ball(*center, *radius, grey()));
    }
    let mut state: u64 = 2024;
    let mut hits = 0;
    for _ in 0..5000 {
        let mut next = || {
            state = state.wrapping_mul(6364136223846793005).wrapping_add(1442695040888963407);
            (state >> 11) as f64 / (1u64 << 53) as f64
        };
        let origin = [next() - 0.5, next() - 0.5, next() * 2.0 - 1.5];
        let direction = [next() * 2.0 - 1.0, next() * 2.0 - 1.0, next() * 2.0 - 1.5];
        let lo = next() * 0.2;
        let hi = if next() < 0.5 { f64::INFINITY } else { lo + next() * 4.0 };

        // The scene as the plain loop scans it.
        let mut expected: Option<(f64, V, bool)> = None;
        let mut closest = hi;
        for (center, radius) in spheres.iter() {
            if let Some(found) = plain_hit(*center, *radius, origin, direction, lo, closest) {
                closest = found.0;
                expected = Some(found);
            }
        }

        let found = world.hit(&ray(origin, direction), s(lo), s(hi));
        match (found, expected) {
            (None, None) => {}
            (Some(rec), Some((t, normal, front))) => {
                hits += 1;
                assert_eq!(f(rec.t), t);
                assert_eq!(rec.front_face, front);
                for i in 0..3 {
                    assert_eq!(val3(rec.normal)[i], normal[i]);
                }
            }
            _ => panic!("one scan hit and the other missed"),
        }
    }
    assert!(hits > 500);
}

#[test]
fn near_zero_and_reflection_agree_with_doubles() {
    let mut state: u64 = 7;
    for _ in 0..20_000 {
        let mut next = || {
            state = state.wrapping_mul(6364136223846793005).wrapping_add(1442695040888963407);
            (state >> 11) as f64 / (1u64 << 53) as f64
        };
        let tiny = [
            (next() - 0.5) * 4e-8,
            (next() - 0.5) * 4e-8,
            (next() - 0.5) * 4e-8,
        ];
        let plain = tiny[0].abs() < 1e-8 && tiny[1].abs() < 1e-8 && tiny[2].abs() < 1e-8;
        assert_eq!(key3(tiny).near_zero(), plain);

        let ratio_sine = next() * 2.0;
        let expected = if ratio_sine > 1.0 { [1.0, 1.0, 0.0] } else { [1.0, -1.0, 0.0] };
        assert_eq!(glass(ratio_sine), expected);
    }
}
