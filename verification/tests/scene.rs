//! The scene list: nearest-hit selection over overlapping members.

use raytrace::fixed::Real;
use raytrace::fixed::SCALE;
use raytrace::hittable::Hittable;
use raytrace::hittable_list::HittableList;
use raytrace::interval::Interval;
use raytrace::material::Lambertian;
use raytrace::material::Material;
use raytrace::ray::Ray;
use raytrace::sphere::Sphere;
use raytrace::vec3::Vec3;

fn v(x: i64, y: i64, z: i64) -> Vec3 {
    Vec3::new(Real::from_int(x), Real::from_int(y), Real::from_int(z))
}

fn grey() -> Material {
    Material::Lambertian(Lambertian::new(Vec3::new(
        Real { raw: SCALE / 2 },
        Real { raw: SCALE / 2 },
        Real { raw: SCALE / 2 },
    )))
}

fn scene_interval() -> Interval {
    Interval::new(Real { raw: 1048 }, Real { raw: i64::MAX - 1 })
}

// Two spheres along the same ray, with roots at t = 2 and t = 5.
fn near_sphere() -> Hittable {
    Hittable::Sphere(Sphere::new(v(0, 0, -3), Real::from_int(1), grey()))
}

fn far_sphere() -> Hittable {
    Hittable::Sphere(Sphere::new(v(0, 0, -6), Real::from_int(1), grey()))
}

#[test]
fn empty_scene_has_no_hit() {
    let world = HittableList::new();
    let r = Ray::new(v(0, 0, 0), v(0, 0, -1));
    assert!(world.hit(&r, scene_interval()).is_none());
}

#[test]
fn nearest_of_two_overlapping_hits_wins() {
    let mut world = HittableList::new();
    world.push(near_sphere());
    world.push(far_sphere());
    let r = Ray::new(v(0, 0, 0), v(0, 0, -1));
    let rec = world.hit(&r, scene_interval()).expect("must hit");
    assert_eq!(rec.t.raw, 2 * SCALE);
}

#[test]
fn membership_order_does_not_change_the_distance() {
    let mut world = HittableList::new();
    world.push(far_sphere());
    world.push(near_sphere());
    let r = Ray::new(v(0, 0, 0), v(0, 0, -1));
    let rec = world.hit(&r, scene_interval()).expect("must hit");
    assert_eq!(rec.t.raw, 2 * SCALE);
}

#[test]
fn scene_misses_when_every_member_misses() {
    let mut world = HittableList::new();
    world.push(near_sphere());
    world.push(far_sphere());
    let r = Ray::new(v(0, 0, 0), v(0, 1, 0));
    assert!(world.hit(&r, scene_interval()).is_none());
}

#[test]
fn a_member_behind_the_interval_is_invisible() {
    let mut world = HittableList::new();
    world.push(near_sphere());
    let r = Ray::new(v(0, 0, 0), v(0, 0, -1));
    // both roots (2 and 4) lie beyond an interval ending at 1
    let narrow = Interval::new(Real { raw: 1048 }, Real::from_int(1));
    assert!(world.hit(&r, narrow).is_none());
}

#[test]
fn len_counts_members() {
    let mut world = HittableList::new();
    assert_eq!(world.len(), 0);
    world.push(near_sphere());
    world.push(far_sphere());
    assert_eq!(world.len(), 2);
}
