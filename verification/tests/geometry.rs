//! Rays, intervals, spheres and hit records.

use raytrace::fixed::Real;
use raytrace::fixed::SCALE;
use raytrace::hittable::HitRecord;
use raytrace::interval::Interval;
use raytrace::material::Lambertian;
use raytrace::material::Material;
use raytrace::ray::Ray;
use raytrace::sphere::Sphere;
use raytrace::vec3::Vec3;

fn v(x: i64, y: i64, z: i64) -> Vec3 {
    Vec3::new(Real::from_int(x), Real::from_int(y), Real::from_int(z))
}

fn grey() -> Material {
    Material::Lambertian(Lambertian::new(Vec3::new(
        Real { raw: SCALE / 2 },
        Real { raw: SCALE / 2 },
        Real { raw: SCALE / 2 },
    )))
}

fn scene_interval() -> Interval {
    Interval::new(Real { raw: 1048 }, Real { raw: i64::MAX - 1 })
}

#[test]
fn ray_accessors_and_at() {
    let r = Ray::new(v(1, 2, 3), v(0, 0, -1));
    assert_eq!(r.origin(), v(1, 2, 3));
    assert_eq!(r.direction(), v(0, 0, -1));
    assert_eq!(r.at(Real::from_int(2)), v(1, 2, 1));
}

#[test]
fn interval_surrounds_is_strict() {
    let i = Interval::new(Real::from_int(0), Real::from_int(2));
    assert!(i.surrounds(Real::from_int(1)));
    assert!(!i.surrounds(Real::from_int(0)));
    assert!(!i.surrounds(Real::from_int(2)));
    assert!(!i.surrounds(Real::from_int(3)));
}

#[test]
fn sphere_radius_is_floored_at_zero() {
    let s = Sphere::new(v(0, 0, 0), Real::from_int(-3), grey());
    assert_eq!(s.radius.raw, 0);
    let s2 = Sphere::new(v(0, 0, 0), Real { raw: SCALE / 2 }, grey());
    assert_eq!(s2.radius.raw, SCALE / 2);
}

#[test]
fn zero_radius_sphere_never_hits() {
    // A zero radius (including a clamped negative one) never produces a
    // hit, even for a ray aimed straight through the degenerate center.
    let s = Sphere::new(v(0, 0, -1), Real::from_int(0), grey());
    let aimed = Ray::new(v(0, 0, 0), v(0, 0, -1));
    assert!(s.hit(&aimed, scene_interval()).is_none());
    let clamped = Sphere::new(v(0, 0, -1), Real::from_int(-3), grey());
    assert!(clamped.hit(&aimed, scene_interval()).is_none());
}

#[test]
fn ray_toward_center_hits_with_positive_t_and_front_face() {
    let s = Sphere::new(v(0, 0, -1), Real { raw: SCALE / 2 }, grey());
    let r = Ray::new(v(0, 0, 0), v(0, 0, -1));
    let rec = s.hit(&r, scene_interval()).expect("must hit");
    assert_eq!(rec.t.raw, SCALE / 2); // hits at t = 0.5 exactly
    assert!(rec.t.raw > 0);
    assert!(rec.front_face);
    // outward unit normal at the near pole points back along +z, exactly
    assert_eq!(rec.normal, v(0, 0, 1));
    assert_eq!(rec.p, Vec3::new(Real { raw: 0 }, Real { raw: 0 }, Real { raw: -(SCALE / 2) }));
}

#[test]
fn normal_opposes_ray_and_is_unit_length() {
    let s = Sphere::new(v(0, 0, -2), Real::from_int(1), grey());
    // an off-axis ray that still hits the sphere
    let r = Ray::new(v(0, 0, 0), Vec3::new(Real { raw: SCALE / 4 }, Real { raw: 0 }, Real::from_int(-1)));
    let rec = s.hit(&r, scene_interval()).expect("must hit");
    let d = r.direction().dot(rec.normal);
    assert!(d.raw <= 0, "normal must oppose the ray, dot = {}", d.raw);
    let nsq = rec.normal.norm_squared();
    assert!((nsq.raw - SCALE).abs() < 200, "|normal|^2 = 1 within tolerance, off by {}", nsq.raw - SCALE);
}

#[test]
fn ray_that_misses_returns_none() {
    let s = Sphere::new(v(0, 0, -1), Real { raw: SCALE / 2 }, grey());
    let up = Ray::new(v(0, 0, 0), v(0, 1, 0));
    assert!(s.hit(&up, scene_interval()).is_none());
    let away = Ray::new(v(0, 0, 0), v(0, 0, 1));
    assert!(s.hit(&away, scene_interval()).is_none());
}

#[test]
fn hit_outside_the_interval_is_rejected() {
    let s = Sphere::new(v(0, 0, -3), Real::from_int(1), grey());
    let r = Ray::new(v(0, 0, 0), v(0, 0, -1));
    // roots are at t = 2 and t = 4; an interval ending before 2 sees nothing
    let narrow = Interval::new(Real { raw: 1048 }, Real::from_int(2));
    assert!(s.hit(&r, narrow).is_none());
    // an interval past the near root still finds the exit at t = 4
    let past = Interval::new(Real::from_int(3), Real::from_int(10));
    let rec = s.hit(&r, past).expect("exit root");
    assert_eq!(rec.t.raw, 4 * SCALE);
    assert!(!rec.front_face);
}

#[test]
fn ray_from_inside_finds_the_exit() {
    let s = Sphere::new(v(0, 0, 0), Real::from_int(1), grey());
    let r = Ray::new(v(0, 0, 0), v(0, 0, -1));
    let rec = s.hit(&r, scene_interval()).expect("exit hit");
    assert_eq!(rec.t.raw, SCALE); // exits at t = 1
    assert!(!rec.front_face); // seen from inside: normal flipped
    assert_eq!(rec.normal, v(0, 0, 1)); // flipped to oppose the ray
}

#[test]
fn set_face_normal_orients_against_the_ray() {
    let r = Ray::new(v(0, 0, 0), v(0, 0, -1));
    let mut rec = HitRecord {
        p: v(0, 0, -1),
        normal: v(0, 0, 0),
        material: grey(),
        t: Real::from_int(1),
        front_face: false,
    };
    let outward = v(0, 0, 1);
    rec.set_face_normal(&r, &outward);
    assert!(rec.front_face);
    assert_eq!(rec.normal, outward);
    let inward = v(0, 0, -1);
    rec.set_face_normal(&r, &inward);
    assert!(!rec.front_face);
    assert_eq!(rec.normal, v(0, 0, 1));
}
