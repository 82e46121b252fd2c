//! The scattering models: diffuse, specular and refractive.

use raytrace::fixed::Real;
use raytrace::fixed::SCALE;
use raytrace::hittable::HitRecord;
use raytrace::material::Dielectric;
use raytrace::material::Lambertian;
use raytrace::material::Material;
use raytrace::material::Metal;
use raytrace::ray::Ray;
use raytrace::rng::Rng;
use raytrace::vec3::Vec3;

fn v(x: i64, y: i64, z: i64) -> Vec3 {
    Vec3::new(Real::from_int(x), Real::from_int(y), Real::from_int(z))
}

fn albedo() -> Vec3 {
    Vec3::new(Real { raw: SCALE / 2 }, Real { raw: 3 * (SCALE / 4) }, Real { raw: SCALE / 4 })
}

/// A hit straight on: the ray arrives along -z against a +z normal.
fn head_on_record(material: Material) -> (Ray, HitRecord) {
    let r = Ray::new(v(0, 0, 0), v(0, 0, -1));
    let rec = HitRecord {
        p: v(0, 0, -1),
        normal: v(0, 0, 1),
        material,
        t: Real::from_int(1),
        front_face: true,
    };
    (r, rec)
}

#[test]
fn lambertian_always_scatters_with_albedo_attenuation() {
    let m = Lambertian::new(albedo());
    let (r, rec) = head_on_record(Material::Lambertian(m));
    let mut seed: u64 = 1;
    while seed < 20 {
        let mut rng = Rng::new(seed);
        let (scattered, attenuation) = m.scatter(&r, &rec, &mut rng).expect("never absorbs");
        assert_eq!(attenuation, albedo());
        assert_eq!(scattered.origin(), rec.p);
        seed += 1;
    }
}

#[test]
fn lambertian_direction_is_normal_plus_unit_sample() {
    let m = Lambertian::new(albedo());
    let (r, rec) = head_on_record(Material::Lambertian(m));
    let mut rng = Rng::new(7);
    let (scattered, _) = m.scatter(&r, &rec, &mut rng).expect("never absorbs");
    // the sample lies on the unit sphere within polynomial tolerance, so
    // direction - normal has squared norm close to one
    let sample = scattered.direction().sub(rec.normal);
    let nsq = sample.norm_squared().raw;
    assert!((nsq - SCALE).abs() < SCALE / 64, "unit sample off by {}", nsq - SCALE);
}

#[test]
fn metal_zero_fuzz_reflects_deterministically() {
    let m = Metal::new(albedo(), Real::from_int(0));
    let (r, rec) = head_on_record(Material::Metal(m));
    let mut rng_a = Rng::new(3);
    let mut rng_b = Rng::new(985_443_120);
    let (sa, aa) = m.scatter(&r, &rec, &mut rng_a).expect("reflects");
    let (sb, ab) = m.scatter(&r, &rec, &mut rng_b).expect("reflects");
    // whatever the generator state, the outcome is the same
    assert_eq!(sa.direction(), sb.direction());
    assert_eq!(aa, albedo());
    assert_eq!(ab, albedo());
    // head-on, the reflection is exactly the reversed direction
    assert_eq!(sa.direction(), v(0, 0, 1));
    // angle of incidence equals angle of reflection:
    // dot(reflected, n) == dot(-incoming, n)
    let lhs = sa.direction().dot(rec.normal);
    let rhs = r.direction().neg().dot(rec.normal);
    assert_eq!(lhs.raw, rhs.raw);
}

#[test]
fn metal_oblique_reflection_matches_the_mirror_angle() {
    let m = Metal::new(albedo(), Real::from_int(0));
    let r = Ray::new(v(0, 1, 1), Vec3::new(Real { raw: 0 }, Real { raw: -SCALE }, Real { raw: -SCALE }));
    let rec = HitRecord {
        p: v(0, 0, 0),
        normal: v(0, 1, 0),
        material: Material::Metal(m),
        t: Real::from_int(1),
        front_face: true,
    };
    let mut rng = Rng::new(11);
    let (scattered, _) = m.scatter(&r, &rec, &mut rng).expect("reflects");
    // incidence at 45 degrees: dot(reflected, n) ~ dot(-incoming, n) / |incoming|
    let d = scattered.direction();
    assert!((d.y.raw + d.z.raw).abs() < 200, "mirror symmetry broken: {} vs {}", d.y.raw, d.z.raw);
    assert!(d.y.raw > 0 && d.z.raw < 0);
}

#[test]
fn metal_absorbs_a_ray_reflected_into_the_surface() {
    let m = Metal::new(albedo(), Real::from_int(0));
    // normal pointing along the incoming ray: the reflection turns back
    // into the surface and is absorbed
    let r = Ray::new(v(0, 0, 0), v(0, 0, -1));
    let rec = HitRecord {
        p: v(0, 0, -1),
        normal: v(0, 0, -1),
        material: Material::Metal(m),
        t: Real::from_int(1),
        front_face: true,
    };
    let mut rng = Rng::new(5);
    assert!(m.scatter(&r, &rec, &mut rng).is_none());
}

#[test]
fn metal_fuzz_is_capped_at_one() {
    let m = Metal::new(albedo(), Real::from_int(7));
    assert_eq!(m.fuzz.raw, SCALE);
    let soft = Metal::new(albedo(), Real { raw: SCALE / 4 });
    assert_eq!(soft.fuzz.raw, SCALE / 4);
}

#[test]
fn dielectric_always_scatters_opaque_white() {
    let m = Dielectric::new(Real { raw: 3 * (SCALE / 2) });
    let (r, rec) = head_on_record(Material::Dielectric(m));
    let mut seed: u64 = 1;
    while seed < 20 {
        let mut rng = Rng::new(seed);
        let (_, attenuation) = m.scatter(&r, &rec, &mut rng).expect("never absorbs");
        assert_eq!(attenuation, v(1, 1, 1));
        seed += 1;
    }
}

#[test]
fn dielectric_with_unit_index_is_the_identity_head_on() {
    let m = Dielectric::new(Real::from_int(1));
    let (r, rec) = head_on_record(Material::Dielectric(m));
    let mut seed: u64 = 1;
    while seed < 20 {
        let mut rng = Rng::new(seed);
        let (scattered, attenuation) = m.scatter(&r, &rec, &mut rng).expect("never absorbs");
        // no interface: the direction passes through unchanged
        assert_eq!(scattered.direction(), v(0, 0, -1));
        assert_eq!(attenuation, v(1, 1, 1));
        seed += 1;
    }
}

#[test]
fn dielectric_with_unit_index_identity_from_inside_too() {
    let m = Dielectric::new(Real::from_int(1));
    let r = Ray::new(v(0, 0, 0), v(0, 0, -1));
    let rec = HitRecord {
        p: v(0, 0, -1),
        normal: v(0, 0, 1),
        material: Material::Dielectric(m),
        t: Real::from_int(1),
        front_face: false,
    };
    let mut rng = Rng::new(9);
    let (scattered, _) = m.scatter(&r, &rec, &mut rng).expect("never absorbs");
    assert_eq!(scattered.direction(), v(0, 0, -1));
}

#[test]
fn material_dispatch_matches_the_variant() {
    let m = Material::Lambertian(Lambertian::new(albedo()));
    let (r, rec) = head_on_record(m);
    let mut rng = Rng::new(2);
    let (_, attenuation) = m.scatter(&r, &rec, &mut rng).expect("diffuse never absorbs");
    assert_eq!(attenuation, albedo());
}

#[test]
fn rng_is_reproducible_from_its_seed() {
    let mut a = Rng::new(42);
    let mut b = Rng::new(42);
    let mut k: u32 = 0;
    while k < 16 {
        assert_eq!(a.next_bits(), b.next_bits());
        k += 1;
    }
    let mut c = Rng::new(43);
    let mut any_diff = false;
    let mut k2: u32 = 0;
    while k2 < 16 {
        if c.next_bits() != a.next_bits() {
            any_diff = true;
        }
        k2 += 1;
    }
    assert!(any_diff);
}

#[test]
fn rng_unit_samples_lie_in_the_unit_interval() {
    let mut rng = Rng::from_entropy();
    let mut k: u32 = 0;
    while k < 100 {
        let u = rng.next_unit();
        assert!(0 <= u.raw && u.raw < SCALE);
        k += 1;
    }
}
