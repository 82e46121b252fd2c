//! The camera: the radiance estimator, per-pixel averaging, and the
//! full render loop.

use raytrace::camera::Camera;
use raytrace::color::write_color;
use raytrace::fixed::Real;
use raytrace::fixed::SCALE;
use raytrace::hittable::Hittable;
use raytrace::hittable_list::HittableList;
use raytrace::interval::Interval;
use raytrace::material::Lambertian;
use raytrace::material::Material;
use raytrace::ray::Ray;
use raytrace::rng::Rng;
use raytrace::sphere::Sphere;
use raytrace::vec3::Vec3;

fn v(x: i64, y: i64, z: i64) -> Vec3 {
    Vec3::new(Real::from_int(x), Real::from_int(y), Real::from_int(z))
}

fn half() -> Real {
    Real { raw: SCALE / 2 }
}

fn grey() -> Material {
    Material::Lambertian(Lambertian::new(Vec3::new(half(), half(), half())))
}

/// A single sphere of radius 0.5 at (0, 0, -1) over a large ground sphere.
fn two_sphere_scene() -> HittableList {
    let mut world = HittableList::new();
    world.push(Hittable::Sphere(Sphere::new(v(0, 0, -1), half(), grey())));
    let ground_center = Vec3::new(
        Real { raw: 0 },
        Real { raw: -(100 * SCALE + SCALE / 2) },
        Real { raw: -SCALE },
    );
    world.push(Hittable::Sphere(Sphere::new(ground_center, Real::from_int(100), grey())));
    world
}

fn test_camera(samples_per_pixel: u64, max_depth: u64) -> Camera {
    Camera::new(
        Real::from_int(16).div(Real::from_int(9)),
        8,
        samples_per_pixel,
        max_depth,
        Real::from_int(90),
        v(0, 0, 0),
        v(0, 0, -1),
        v(0, 1, 0),
        Real::from_int(0),
        Real::from_int(1),
    )
}

#[test]
fn depth_zero_yields_pure_black() {
    let world = two_sphere_scene();
    let r = Ray::new(v(0, 0, 0), v(0, 0, -1));
    let mut rng = Rng::new(123);
    let c = Camera::ray_color(&r, 0, &world, &mut rng);
    assert_eq!(c, v(0, 0, 0));
    // the bounce budget is checked before any randomness is consumed
    assert_eq!(rng.state, Rng::new(123).state);
}

#[test]
fn center_hit_normal_colors_as_expected() {
    // The normal-visualization check: the straight-down-the-z-axis ray
    // hits the small sphere head on, its normal is exactly (0, 0, 1), and
    // the visualization color 0.5 * (normal + (1,1,1)) is (0.5, 0.5, 1.0).
    let world = two_sphere_scene();
    let r = Ray::new(v(0, 0, 0), v(0, 0, -1));
    let interval = Interval::new(Real { raw: 1048 }, Real { raw: i64::MAX - 1 });
    let rec = world.hit(&r, interval).expect("center ray must hit");
    assert_eq!(rec.t.raw, SCALE / 2);
    assert_eq!(rec.normal, v(0, 0, 1));
    let shade = rec.normal.add(v(1, 1, 1)).scale(half());
    assert_eq!(shade, Vec3::new(half(), half(), Real::from_int(1)));
}

#[test]
fn missing_ray_returns_the_sky_gradient() {
    let world = two_sphere_scene();
    // straight up: unit direction y = 1, gradient parameter a = 1, so the
    // color is exactly the sky color (0.5, 0.7, 1.0)
    let r = Ray::new(v(0, 0, 0), v(0, 1, 0));
    let mut rng = Rng::new(5);
    let c = Camera::ray_color(&r, 4, &world, &mut rng);
    assert_eq!(c.x.raw, SCALE / 2);
    assert_eq!(c.y.raw, 734003);
    assert_eq!(c.z.raw, SCALE);
}

#[test]
fn depth_exhaustion_is_monotone_on_settled_rays() {
    let world = two_sphere_scene();
    // a ray that misses settles immediately: more depth changes nothing
    let r = Ray::new(v(0, 0, 0), v(0, 1, 0));
    let mut rng_low = Rng::new(9);
    let mut rng_high = Rng::new(9);
    let low = Camera::ray_color(&r, 1, &world, &mut rng_low);
    let high = Camera::ray_color(&r, 9, &world, &mut rng_high);
    assert_eq!(low, high);
    assert_eq!(rng_low.state, rng_high.state);
}

#[test]
fn image_height_follows_the_aspect_ratio() {
    let cam = test_camera(1, 3);
    assert_eq!(cam.image_width, 8);
    assert_eq!(cam.image_height, 4); // floor(8 / (16/9)) = 4
}

#[test]
fn camera_derives_its_projection_geometry() {
    // vfov 90 degrees at focus distance 1: the viewport is 2 tall and,
    // with 8x4 pixels, 4 wide; deltas are half a unit per pixel.
    let cam = test_camera(1, 3);
    assert_eq!(cam.center, v(0, 0, 0));
    // pixel_delta_u points along +x at about 0.5, exactly zero elsewhere
    assert!((cam.pixel_delta_u.x.raw - SCALE / 2).abs() < 8000);
    assert_eq!(cam.pixel_delta_u.y.raw, 0);
    assert_eq!(cam.pixel_delta_u.z.raw, 0);
    // pixel_delta_v points along -y at about 0.5
    assert_eq!(cam.pixel_delta_v.x.raw, 0);
    assert!((cam.pixel_delta_v.y.raw + SCALE / 2).abs() < 8000);
    assert_eq!(cam.pixel_delta_v.z.raw, 0);
    // a zero defocus angle leaves the disk basis exactly zero
    assert_eq!(cam.defocus_disk_u, v(0, 0, 0));
    assert_eq!(cam.defocus_disk_v, v(0, 0, 0));
}

#[test]
fn render_emits_one_color_per_pixel_in_row_major_order() {
    let world = two_sphere_scene();
    let cam = test_camera(1, 3);
    let mut rng = Rng::new(2024);
    let image = cam.render(&world, &mut rng);
    assert_eq!(image.len(), 32);
}

#[test]
fn render_is_reproducible_from_the_seed() {
    let world = two_sphere_scene();
    let cam = test_camera(2, 3);
    let mut rng_a = Rng::new(7);
    let mut rng_b = Rng::new(7);
    let image_a = cam.render(&world, &mut rng_a);
    let image_b = cam.render(&world, &mut rng_b);
    assert_eq!(image_a, image_b);
    let mut rng_c = Rng::new(8);
    let image_c = cam.render(&world, &mut rng_c);
    assert_ne!(image_a, image_c);
}

#[test]
fn pixel_mean_equals_average_of_single_sample_renders() {
    // The averaging invariant: with the generator state threaded through,
    // one four-sample render of a pixel equals four one-sample renders
    // folded and divided by four, exactly.
    let world = two_sphere_scene();
    let cam = test_camera(4, 3);
    let single = test_camera(1, 3);
    let mut rng = Rng::new(77);
    let averaged = cam.render_pixel(1, 1, &world, &mut rng);

    let mut rng_manual = Rng::new(77);
    let mut acc = Vec3::zero();
    let mut k: u32 = 0;
    while k < 4 {
        let sample = single.render_pixel(1, 1, &world, &mut rng_manual);
        acc = acc.add(sample);
        k += 1;
    }
    let manual = acc.div_scalar(Real::from_int(4));
    assert_eq!(averaged, manual);
    assert_eq!(rng.state, rng_manual.state);
}

#[test]
fn write_color_formats_quantized_channels() {
    assert_eq!(write_color(&v(0, 0, 0)), "0 0 0");
    assert_eq!(write_color(&v(1, 1, 1)), "255 255 255");
    // 0.25 has square root 0.5, which quantizes to 128
    let c = Vec3::new(Real { raw: SCALE / 4 }, Real::from_int(1), Real::from_int(0));
    assert_eq!(write_color(&c), "128 255 0");
    // channels above one still clamp to 255; negative channels to 0
    let wild = Vec3::new(Real::from_int(3), Real::from_int(-1), Real { raw: SCALE / 4 });
    assert_eq!(write_color(&wild), "255 0 128");
}
