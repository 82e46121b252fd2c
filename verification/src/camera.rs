//! The camera: projection geometry, stochastic per-pixel sampling, and the
//! recursive radiance estimator.
//!
//! All geometry is derived once at construction and never recomputed
//! mid-render. Per-pixel rays jitter symmetrically about the pixel center,
//! optionally originating on a defocus disk for depth of field. The
//! estimator recurses to a hard depth bound, multiplying attenuations, and
//! the render loop averages the samples of each pixel in row-major order.
//! Writing the pixels out (and reporting progress) belongs to the caller.

use vstd::prelude::*;

use crate::color::Color;
use crate::fixed::fadd;
use crate::fixed::fdiv;
use crate::fixed::fmul;
use crate::fixed::fsqrt;
use crate::fixed::fsub;
use crate::fixed::ftan_turn;
use crate::fixed::sat;
use crate::fixed::Real;
use crate::fixed::C_HALF;
use crate::fixed::RAW_MAX;
use crate::fixed::SCALE;
use crate::hittable::hittable_hit_spec;
use crate::hittable::HitRecord;
use crate::hittable::Hittable;
use crate::hittable_list::list_hit_spec;
use crate::hittable_list::HittableList;
use crate::interval::Interval;
use crate::material::material_wf;
use crate::material::scatter_spec;
use crate::ray::Ray;
use crate::rng::next_state;
use crate::rng::unit_raw;
use crate::rng::Rng;
use crate::vec3::rl;
use crate::vec3::vadd;
use crate::vec3::vcmul;
use crate::vec3::vcross;
use crate::vec3::vdivs;
use crate::vec3::vneg;
use crate::vec3::vscale;
use crate::vec3::vsub;
use crate::vec3::vunit;
use crate::vec3::vunit_or_zero;
use crate::vec3::vzero;
use crate::vec3::Point3;
use crate::vec3::Vec3;

verus! {

/// The shadow-acne epsilon `0.001` in raw units: the lower bound of every
/// scene query, so a scattered ray cannot re-hit its own origin.
pub const T_EPS_RAW: i64 = 1048;

/// The green channel of the sky gradient's far color `(0.5, 0.7, 1.0)`.
pub const SKY_G_RAW: i64 = 734003;

/// Spec mirror of the disk sample drawn from two generator steps: radius
/// square root of the first draw, angle the second draw as a fraction of a
/// turn.
pub open spec fn disk_vec_spec(s0: u64) -> Vec3 {
    let r = fsqrt(unit_raw(next_state(s0)));
    let t = unit_raw(next_state(next_state(s0)));
    Vec3 {
        x: rl(fmul(r, crate::fixed::fcos_turn(t))),
        y: rl(fmul(r, crate::fixed::fsin_turn(t))),
        z: Real { raw: 0 },
    }
}

/// Generate a random vector in the unit disk by the polar method.
fn random_vector_in_unit_disk(rng: &mut Rng) -> (r: Vec3)
    ensures
        final (rng).state == next_state(next_state(old(rng).state)),
        r == disk_vec_spec(old(rng).state),
{
    let radius = rng.next_unit().sqrt();
    let t = rng.next_unit();
    Vec3::new(radius.mul(t.cos_turn()), radius.mul(t.sin_turn()), Real::zero())
}

/// A camera.
///
/// The camera is defined by the following parameters:
/// * `image_width` - The width of the rendered image in pixels.
/// * `image_height` - The height of the rendered image in pixels.
/// * `samples_per_pixel` - The number of samples to take for each pixel.
/// * `max_depth` - The maximum number of ray bounces into scene.
/// * `defocus_angle` - The variation angle of rays through each pixel.
/// * `center` - The center of the camera.
/// * `pixel00_loc` - The location of the upper left pixel.
/// * `pixel_delta_u` - The vector from pixel to pixel across the horizontal viewport edge.
/// * `pixel_delta_v` - The vector from pixel to pixel down the vertical viewport edge.
/// * `defocus_disk_u` - The defocus disk horizontal radius.
/// * `defocus_disk_v` - The defocus disk vertical radius.
#[derive(Clone, Copy, PartialEq, Eq, Structural, Debug)]
pub struct Camera {
    pub image_width: u64,
    pub image_height: u64,
    pub samples_per_pixel: u64,
    pub max_depth: u64,
    pub defocus_angle: Real,
    pub center: Point3,
    pub pixel00_loc: Point3,
    pub pixel_delta_u: Vec3,
    pub pixel_delta_v: Vec3,
    pub defocus_disk_u: Vec3,
    pub defocus_disk_v: Vec3,
}

/// Spec mirror of the image height derived from width and aspect ratio:
/// floored, and at least one.
pub open spec fn image_height_spec(image_width: u64, aspect_ratio: Real) -> int
    recommends
        aspect_ratio.raw > 0,
{
    let wfix = sat(image_width * (SCALE as int));
    let h = fdiv(wfix, aspect_ratio.raw as int) / (SCALE as int);
    if h < 1 {
        1
    } else {
        h
    }
}

/// Spec mirror of the full camera construction.
pub open spec fn camera_setup(
    aspect_ratio: Real,
    image_width: u64,
    samples_per_pixel: u64,
    max_depth: u64,
    vfov: Real,
    lookfrom: Point3,
    lookat: Point3,
    vup: Vec3,
    defocus_angle: Real,
    focus_distance: Real,
) -> Camera {
    let image_height = image_height_spec(image_width, aspect_ratio) as u64;
    let center = lookfrom;
    let h = ftan_turn(fdiv(vfov.raw as int, sat(720 * (SCALE as int))));
    let viewport_height = fmul(fmul(sat(2 * (SCALE as int)), h), focus_distance.raw as int);
    let wfix = rl(sat(image_width * (SCALE as int)));
    let hfix = rl(sat(image_height * (SCALE as int)));
    let viewport_width = fmul(viewport_height, fdiv(wfix.raw as int, hfix.raw as int));
    let w = vunit(vsub(lookfrom, lookat));
    let u = vunit(vcross(vup, w));
    let v = vcross(w, u);
    let viewport_u = vscale(viewport_width, u);
    let viewport_v = vscale(viewport_height, vneg(v));
    let pixel_delta_u = vdivs(viewport_u, wfix.raw as int);
    let pixel_delta_v = vdivs(viewport_v, hfix.raw as int);
    let two = sat(2 * (SCALE as int));
    let viewport_upper_left = vsub(
        vsub(vsub(center, vscale(focus_distance.raw as int, w)), vdivs(viewport_u, two)),
        vdivs(viewport_v, two),
    );
    let pixel00_loc = vadd(
        viewport_upper_left,
        vscale(C_HALF as int, vadd(pixel_delta_u, pixel_delta_v)),
    );
    let defocus_radius = fmul(
        focus_distance.raw as int,
        ftan_turn(fdiv(defocus_angle.raw as int, sat(720 * (SCALE as int)))),
    );
    let defocus_disk_u = vscale(defocus_radius, u);
    let defocus_disk_v = vscale(defocus_radius, v);
    Camera {
        image_width,
        image_height,
        samples_per_pixel,
        max_depth,
        defocus_angle,
        center,
        pixel00_loc,
        pixel_delta_u,
        pixel_delta_v,
        defocus_disk_u,
        defocus_disk_v,
    }
}

/// Spec mirror of the defocus-disk origin sample.
pub open spec fn defocus_sample_spec(c: Camera, s0: u64) -> Point3 {
    let p = disk_vec_spec(s0);
    vadd(
        vadd(c.center, vscale(p.x.raw as int, c.defocus_disk_u)),
        vscale(p.y.raw as int, c.defocus_disk_v),
    )
}

/// Spec mirror of per-pixel ray generation: a symmetric jitter in
/// `[-1/2, 1/2)` on each axis, an origin on the defocus disk when the
/// defocus angle is positive, and the resulting generator state.
pub open spec fn get_ray_spec(c: Camera, i: u64, j: u64, s0: u64) -> (Ray, u64) {
    let ox = fsub(unit_raw(next_state(s0)), C_HALF as int);
    let oy = fsub(unit_raw(next_state(next_state(s0))), C_HALF as int);
    let s2 = next_state(next_state(s0));
    let pixel_sample = vadd(
        vadd(
            c.pixel00_loc,
            vscale(fadd(sat(i * (SCALE as int)), ox), c.pixel_delta_u),
        ),
        vscale(fadd(sat(j * (SCALE as int)), oy), c.pixel_delta_v),
    );
    let (origin, s_end): (Point3, u64) = if c.defocus_angle.raw <= 0 {
        (c.center, s2)
    } else {
        (defocus_sample_spec(c, s2), next_state(next_state(s2)))
    };
    (Ray { origin, direction: vsub(pixel_sample, origin) }, s_end)
}

/// Every material in the scene is well formed, so any hit record the scene
/// produces can scatter.
pub open spec fn list_wf(objs: Seq<Hittable>) -> bool {
    forall|k: int|
        0 <= k < objs.len() ==> material_wf(
            #[trigger] hittable_material(objs[k]),
        )
}

/// The material a shape carries.
pub open spec fn hittable_material(h: Hittable) -> crate::material::Material {
    match h {
        Hittable::Sphere(s) => s.material,
    }
}

/// The interval every scene query of the estimator uses: from the
/// shadow-acne epsilon to the greatest representable distance.
pub open spec fn scene_interval() -> Interval {
    Interval { min: Real { raw: T_EPS_RAW }, max: Real { raw: RAW_MAX } }
}

/// Spec mirror of the background gradient: white blended toward sky blue
/// by the vertical component of the unit direction, mapped from `[-1, 1]`
/// to `[0, 1]` and clamped to that range (a rounded unit direction can
/// stray a step outside it, and the blend must stay a convex weight so
/// the emitted channels stay in `[0, 1]`).
pub open spec fn background_spec(r: Ray) -> Color {
    let unit_direction = vunit_or_zero(r.direction);
    let a = crate::fixed::fmin(
        crate::fixed::fmax(
            fdiv(fadd(unit_direction.y.raw as int, SCALE as int), sat(2 * (SCALE as int))),
            0,
        ),
        SCALE as int,
    );
    vadd(
        vscale(fsub(SCALE as int, a), crate::material::white()),
        vscale(a, Vec3 { x: Real { raw: C_HALF }, y: Real { raw: SKY_G_RAW }, z: Real { raw: SCALE } }),
    )
}

/// Spec mirror of the radiance estimator: black at depth zero; otherwise
/// the scattered recursion attenuated per channel, black on absorption, or
/// the background on a miss. Returns the color and the generator state.
pub open spec fn ray_color_spec(r: Ray, depth: u64, objs: Seq<Hittable>, s0: u64) -> (Color, u64)
    decreases depth,
{
    if depth == 0 {
        (vzero(), s0)
    } else {
        match list_hit_spec(objs, r, scene_interval()) {
            Some(rec) => {
                let (scattered, s1) = scatter_spec(rec.material, r, rec, s0);
                match scattered {
                    Some((sray, attenuation)) => {
                        let (c, s2) = ray_color_spec(sray, (depth - 1) as u64, objs, s1);
                        (vcmul(attenuation, c), s2)
                    },
                    None => (vzero(), s1),
                }
            },
            None => (background_spec(r), s0),
        }
    }
}

/// Spec mirror of one sample of one pixel: a generated ray followed by the
/// estimator at the camera's depth bound.
pub open spec fn sample_color_spec(c: Camera, i: u64, j: u64, objs: Seq<Hittable>, s0: u64) -> (
    Color,
    u64,
) {
    let (ray, s1) = get_ray_spec(c, i, j, s0);
    ray_color_spec(ray, c.max_depth, objs, s1)
}

/// Spec mirror of the sample loop: `remaining` more samples folded onto
/// the accumulator, left to right.
pub open spec fn sum_samples_spec(
    c: Camera,
    i: u64,
    j: u64,
    objs: Seq<Hittable>,
    acc: Color,
    s0: u64,
    remaining: nat,
) -> (Color, u64)
    decreases remaining,
{
    if remaining == 0 {
        (acc, s0)
    } else {
        let (sample, s1) = sample_color_spec(c, i, j, objs, s0);
        sum_samples_spec(c, i, j, objs, vadd(acc, sample), s1, (remaining - 1) as nat)
    }
}

/// Spec mirror of one pixel's averaged color: the sample sum divided by
/// the sample count.
pub open spec fn render_pixel_spec(c: Camera, i: u64, j: u64, objs: Seq<Hittable>, s0: u64) -> (
    Color,
    u64,
)
    recommends
        c.samples_per_pixel >= 1,
{
    let (sum, s_end) = sum_samples_spec(c, i, j, objs, vzero(), s0, c.samples_per_pixel as nat);
    (vdivs(sum, sat(c.samples_per_pixel * (SCALE as int))), s_end)
}

/// Spec mirror of the render loop: the first `n` pixels in row-major
/// order, threading the generator state pixel to pixel.
pub open spec fn render_pixels_spec(c: Camera, objs: Seq<Hittable>, s0: u64, n: nat) -> (
    Seq<Color>,
    u64,
)
    decreases n,
{
    if n == 0 {
        (Seq::empty(), s0)
    } else {
        let (prefix, s1) = render_pixels_spec(c, objs, s0, (n - 1) as nat);
        let k = (n - 1) as int;
        let i = (k % (c.image_width as int)) as u64;
        let j = (k / (c.image_width as int)) as u64;
        let (color, s2) = render_pixel_spec(c, i, j, objs, s1);
        (prefix.push(color), s2)
    }
}

impl Camera {
    /// Create a new camera.
    ///
    /// # Arguments
    /// * `aspect_ratio` - The aspect ratio of the image.
    /// * `image_width` - The width of the image in pixels.
    /// * `samples_per_pixel` - The number of samples to take for each pixel.
    /// * `max_depth` - The maximum depth of the ray bouncing.
    /// * `vfov` - The vertical field of view in degrees.
    /// * `lookfrom` - The point the camera is looking from.
    /// * `lookat` - The point the camera is looking at.
    /// * `vup` - The camera-relative "up" direction.
    /// * `defocus_angle` - The variation angle of rays through each pixel.
    /// * `focus_distance` - The distance from the camera lookfrom point to the focal plane.
    ///
    /// A malformed configuration is a precondition violation: callers
    /// validate and fail fast before any rendering work begins.
    pub fn new(
        aspect_ratio: Real,
        image_width: u64,
        samples_per_pixel: u64,
        max_depth: u64,
        vfov: Real,
        lookfrom: Point3,
        lookat: Point3,
        vup: Vec3,
        defocus_angle: Real,
        focus_distance: Real,
    ) -> (c: Camera)
        requires
            aspect_ratio.raw > 0,
            1 <= image_width <= 0x7FFFFFFFFFFFFFFF,
            samples_per_pixel >= 1,
            0 < vfov.raw < 188743680,  // (0, 180) degrees
            0 <= defocus_angle.raw < 188743680,
            focus_distance.raw > 0,
            crate::vec3::vnorm_sq(vsub(lookfrom, lookat)) > 0,
            crate::vec3::vnorm_sq(vcross(vup, vunit(vsub(lookfrom, lookat)))) > 0,
        ensures
            c == camera_setup(
                aspect_ratio,
                image_width,
                samples_per_pixel,
                max_depth,
                vfov,
                lookfrom,
                lookat,
                vup,
                defocus_angle,
                focus_distance,
            ),
    {
        // We need to ensure that the image height is at least 1.
        let wfix = Real::from_int(image_width as i64);
        let hq = wfix.div(aspect_ratio);
        proof {
            vstd::arithmetic::div_mod::lemma_div_pos_is_pos(
                (wfix.raw as int) * (SCALE as int),
                aspect_ratio.raw as int,
            );
            vstd::arithmetic::div_mod::lemma_div_pos_is_pos(hq.raw as int, SCALE as int);
        }
        let h_floor: u64 = ((hq.raw as u64) / (SCALE as u64));
        let image_height: u64 = if h_floor < 1 {
            1
        } else {
            h_floor
        };

        let center = lookfrom;

        // Determine viewport dimensions.
        let deg720 = Real::from_int(720);
        let theta_frac = vfov.div(deg720);
        proof {
            lemma_angle_fraction(vfov.raw as int);
        }
        let h = theta_frac.tan_turn();
        let viewport_height = Real::from_int(2).mul(h).mul(focus_distance);
        let hfix = Real::from_int(image_height as i64);
        proof {
            assert(image_height * (SCALE as int) >= SCALE as int) by (nonlinear_arith)
                requires
                    image_height >= 1,
            ;
        }
        let viewport_width = viewport_height.mul(wfix.div(hfix));

        // Calculate the u,v,w unit basis vectors for the camera coordinate frame.
        let w = lookfrom.sub(lookat).normalize();
        let u = vup.cross(w).normalize();
        let v = w.cross(u);

        // Calculate the vectors across the horizontal and down the vertical viewport
        // edges.
        let viewport_u = u.scale(viewport_width);
        let viewport_v = v.neg().scale(viewport_height);

        // Calculate the horizontal and vertical delta vectors from pixel to pixel.
        let pixel_delta_u = viewport_u.div_scalar(wfix);
        let pixel_delta_v = viewport_v.div_scalar(hfix);

        // Calculate the location of the upper left pixel.
        let two = Real::from_int(2);
        let viewport_upper_left = center.sub(w.scale(focus_distance)).sub(
            viewport_u.div_scalar(two),
        ).sub(viewport_v.div_scalar(two));
        let pixel00_loc = viewport_upper_left.add(
            pixel_delta_u.add(pixel_delta_v).scale(Real { raw: C_HALF }),
        );

        // Calculate the camera defocus disk basis vectors.
        let defocus_frac = defocus_angle.div(deg720);
        proof {
            lemma_angle_fraction(defocus_angle.raw as int);
        }
        let defocus_radius = focus_distance.mul(defocus_frac.tan_turn());
        let defocus_disk_u = u.scale(defocus_radius);
        let defocus_disk_v = v.scale(defocus_radius);

        Camera {
            image_width,
            image_height,
            samples_per_pixel,
            max_depth,
            defocus_angle,
            center,
            pixel00_loc,
            pixel_delta_u,
            pixel_delta_v,
            defocus_disk_u,
            defocus_disk_v,
        }
    }

    /// Returns a random point in the camera defocus disk.
    fn defocus_disk_sample(&self, rng: &mut Rng) -> (p: Point3)
        ensures
            final (rng).state == next_state(next_state(old(rng).state)),
            p == defocus_sample_spec(*self, old(rng).state),
    {
        let p = random_vector_in_unit_disk(rng);
        self.center.add(self.defocus_disk_u.scale(p.x)).add(self.defocus_disk_v.scale(p.y))
    }

    /// Returns the vector to a random point in the
    /// `[-1/2, -1/2]`-to-`[+1/2, +1/2]` unit square; the jitter is
    /// symmetric on both axes.
    fn sample_square(rng: &mut Rng) -> (o: Vec3)
        ensures
            final (rng).state == next_state(next_state(old(rng).state)),
            o.x.raw as int == fsub(unit_raw(next_state(old(rng).state)), C_HALF as int),
            o.y.raw as int == fsub(
                unit_raw(next_state(next_state(old(rng).state))),
                C_HALF as int,
            ),
            o.z.raw == 0,
            -C_HALF <= o.x.raw < C_HALF,
            -C_HALF <= o.y.raw < C_HALF,
    {
        let half = Real { raw: C_HALF };
        let ox = rng.next_unit().sub(half);
        let oy = rng.next_unit().sub(half);
        Vec3::new(ox, oy, Real::zero())
    }

    /// Construct a camera ray originating from the defocus disk and
    /// directed at a randomly sampled point around the pixel location
    /// `i, j`.
    fn get_ray(&self, i: u64, j: u64, rng: &mut Rng) -> (r: Ray)
        requires
            i <= 0x7FFFFFFFFFFFFFFF,
            j <= 0x7FFFFFFFFFFFFFFF,
        ensures
            r == get_ray_spec(*self, i, j, old(rng).state).0,
            final (rng).state == get_ray_spec(*self, i, j, old(rng).state).1,
    {
        let offset = Self::sample_square(rng);
        let pixel_sample = self.pixel00_loc.add(
            self.pixel_delta_u.scale(Real::from_int(i as i64).add(offset.x)),
        ).add(self.pixel_delta_v.scale(Real::from_int(j as i64).add(offset.y)));

        let ray_origin = if self.defocus_angle.le(Real::zero()) {
            self.center
        } else {
            self.defocus_disk_sample(rng)
        };

        Ray::new(ray_origin, pixel_sample.sub(ray_origin))
    }

    /// Compute the color from a ray. A depth of zero yields pure black:
    /// the bounce budget is exhausted and no more light is gathered.
    pub fn ray_color(r: &Ray, depth: u64, world: &HittableList, rng: &mut Rng) -> (c: Color)
        requires
            list_wf(world.objects@),
        ensures
            c == ray_color_spec(*r, depth, world.objects@, old(rng).state).0,
            final (rng).state == ray_color_spec(*r, depth, world.objects@, old(rng).state).1,
            depth == 0 ==> c == vzero(),
            list_attenuations_unit(world.objects@) ==> color_unit(c),
        decreases depth,
    {
        proof {
            if list_attenuations_unit(world.objects@) {
                lemma_ray_color_unit(*r, depth, world.objects@, rng.state);
            }
        }
        // If we've exceeded the ray bounce limit, no more light is gathered.
        if depth == 0 {
            return Vec3::zero();
        }

        let hit = world.hit(r, Interval::new(Real { raw: T_EPS_RAW }, Real { raw: RAW_MAX }));
        match hit {
            Some(rec) => {
                proof {
                    lemma_list_hit_material_wf(
                        world.objects@,
                        *r,
                        scene_interval(),
                        rec,
                    );
                }
                match rec.material.scatter(r, &rec, rng) {
                    Some((scattered, attenuation)) => {
                        let c = Self::ray_color(&scattered, depth - 1, world, rng);
                        attenuation.component_mul(c)
                    },
                    None => Vec3::zero(),
                }
            },
            None => {
                let unit_direction = r.direction().unit_or_zero();
                let a = unit_direction.y.add(Real::one()).div(Real::from_int(2)).max(
                    Real::zero(),
                ).min(Real::one());
                let white = Vec3::new(Real::one(), Real::one(), Real::one());
                let sky = Vec3::new(
                    Real { raw: C_HALF },
                    Real { raw: SKY_G_RAW },
                    Real::one(),
                );
                white.scale(Real::one().sub(a)).add(sky.scale(a))
            },
        }
    }

    /// One pixel's color: the mean of `samples_per_pixel` independent
    /// sample rays.
    pub fn render_pixel(&self, i: u64, j: u64, world: &HittableList, rng: &mut Rng) -> (c: Color)
        requires
            list_wf(world.objects@),
            self.samples_per_pixel >= 1,
            self.samples_per_pixel <= 0x7FFFFFFFFFFFFFFF,
            i <= 0x7FFFFFFFFFFFFFFF,
            j <= 0x7FFFFFFFFFFFFFFF,
        ensures
            c == render_pixel_spec(*self, i, j, world.objects@, old(rng).state).0,
            final (rng).state == render_pixel_spec(*self, i, j, world.objects@, old(rng).state).1,
            list_attenuations_unit(world.objects@) ==> color_unit(c),
    {
        proof {
            if list_attenuations_unit(world.objects@) {
                lemma_render_pixel_unit(*self, i, j, world.objects@, rng.state);
            }
        }
        let mut acc = Vec3::zero();
        let mut s: u64 = 0;
        let ghost s0 = rng.state;
        while s < self.samples_per_pixel
            invariant
                s <= self.samples_per_pixel,
                list_wf(world.objects@),
                self.samples_per_pixel <= 0x7FFFFFFFFFFFFFFF,
                i <= 0x7FFFFFFFFFFFFFFF,
                j <= 0x7FFFFFFFFFFFFFFF,
                sum_samples_spec(
                    *self,
                    i,
                    j,
                    world.objects@,
                    vzero(),
                    s0,
                    self.samples_per_pixel as nat,
                ) == sum_samples_spec(
                    *self,
                    i,
                    j,
                    world.objects@,
                    acc,
                    rng.state,
                    (self.samples_per_pixel - s) as nat,
                ),
            decreases self.samples_per_pixel - s,
        {
            let ray = self.get_ray(i, j, rng);
            let sample = Self::ray_color(&ray, self.max_depth, world, rng);
            acc = acc.add(sample);
            s = s + 1;
        }
        acc.div_scalar(Real::from_int(self.samples_per_pixel as i64))
    }

    /// Render the scene: every pixel's averaged color, in row-major order.
    /// Emitting the stream (and progress reporting) is the caller's part.
    pub fn render(&self, world: &HittableList, rng: &mut Rng) -> (image: Vec<Color>)
        requires
            list_wf(world.objects@),
            self.samples_per_pixel >= 1,
            self.samples_per_pixel <= 0x7FFFFFFFFFFFFFFF,
            1 <= self.image_width <= 0x7FFFFFFFFFFFFFFF,
            self.image_height <= 0x7FFFFFFFFFFFFFFF,
            self.image_width * self.image_height <= usize::MAX,
        ensures
            image@ == render_pixels_spec(
                *self,
                world.objects@,
                old(rng).state,
                (self.image_width * self.image_height) as nat,
            ).0,
            final (rng).state == render_pixels_spec(
                *self,
                world.objects@,
                old(rng).state,
                (self.image_width * self.image_height) as nat,
            ).1,
            image@.len() == self.image_width * self.image_height,
            list_attenuations_unit(world.objects@) ==> forall|p: int|
                0 <= p < image@.len() ==> color_unit(#[trigger] image@[p]),
    {
        proof {
            if list_attenuations_unit(world.objects@) {
                lemma_render_pixels_unit(
                    *self,
                    world.objects@,
                    rng.state,
                    (self.image_width * self.image_height) as nat,
                );
            }
        }
        let total: u64 = self.image_width * self.image_height;
        let mut image: Vec<Color> = Vec::new();
        let mut k: u64 = 0;
        let ghost s0 = rng.state;
        while k < total
            invariant
                k <= total,
                total == self.image_width * self.image_height,
                list_wf(world.objects@),
                self.samples_per_pixel >= 1,
                self.samples_per_pixel <= 0x7FFFFFFFFFFFFFFF,
                1 <= self.image_width <= 0x7FFFFFFFFFFFFFFF,
                self.image_height <= 0x7FFFFFFFFFFFFFFF,
                image@.len() == k,
                (image@, rng.state) == render_pixels_spec(
                    *self,
                    world.objects@,
                    s0,
                    k as nat,
                ),
            decreases total - k,
        {
            let i: u64 = k % self.image_width;
            let j: u64 = k / self.image_width;
            proof {
                vstd::arithmetic::div_mod::lemma_mod_division_less_than_divisor(
                    k as int,
                    self.image_width as int,
                );
                vstd::arithmetic::div_mod::lemma_multiply_divide_lt(
                    k as int,
                    self.image_width as int,
                    self.image_height as int,
                );
                vstd::arithmetic::div_mod::lemma_div_pos_is_pos(k as int, self.image_width as int);
            }
            let color = self.render_pixel(i, j, world, rng);
            image.push(color);
            k = k + 1;
        }
        image
    }
}

/// Colors produced by the estimator have representable components.
pub proof fn lemma_ray_color_in_range(r: Ray, depth: u64, objs: Seq<Hittable>, s0: u64)
    ensures
        crate::vec3::vin_range(ray_color_spec(r, depth, objs, s0).0),
    decreases depth,
{
    if depth != 0 {
        match list_hit_spec(objs, r, scene_interval()) {
            Some(rec) => {
                let (sc, s1) = scatter_spec(rec.material, r, rec, s0);
                match sc {
                    Some(pair) => {
                        lemma_ray_color_in_range(pair.0, (depth - 1) as u64, objs, s1);
                    },
                    None => {},
                }
            },
            None => {},
        }
    }
}

/// The recursion settles within `depth` bounces: before the budget runs
/// out, every path either misses the scene or is absorbed.
pub open spec fn settles_within(r: Ray, depth: u64, objs: Seq<Hittable>, s0: u64) -> bool
    decreases depth,
{
    if depth == 0 {
        false
    } else {
        match list_hit_spec(objs, r, scene_interval()) {
            Some(rec) => {
                let (sc, s1) = scatter_spec(rec.material, r, rec, s0);
                match sc {
                    Some(pair) => settles_within(pair.0, (depth - 1) as u64, objs, s1),
                    None => true,
                }
            },
            None => true,
        }
    }
}

/// Law (depth monotonicity): raising the bounce bound cannot change a
/// sample whose recursion already settles — absorbs or escapes — within
/// the lower bound. In particular, for scenes whose materials always
/// absorb before a given depth, any larger depth renders the identical
/// image.
pub proof fn lemma_ray_color_depth_monotone(
    r: Ray,
    objs: Seq<Hittable>,
    s0: u64,
    d1: u64,
    d2: u64,
)
    requires
        settles_within(r, d1, objs, s0),
        d1 <= d2,
    ensures
        ray_color_spec(r, d1, objs, s0) == ray_color_spec(r, d2, objs, s0),
    decreases d1,
{
    match list_hit_spec(objs, r, scene_interval()) {
        Some(rec) => {
            let (sc, s1) = scatter_spec(rec.material, r, rec, s0);
            match sc {
                Some(pair) => {
                    lemma_ray_color_depth_monotone(
                        pair.0,
                        objs,
                        s1,
                        (d1 - 1) as u64,
                        (d2 - 1) as u64,
                    );
                },
                None => {},
            }
        },
        None => {},
    }
}

/// Law (depth monotonicity, lifted to a pixel sample): two cameras that
/// differ only in their depth bound draw the same sample whenever the
/// recursion settles within the smaller bound.
pub proof fn lemma_sample_depth_monotone(
    c1: Camera,
    c2: Camera,
    i: u64,
    j: u64,
    objs: Seq<Hittable>,
    s0: u64,
)
    requires
        c2 == (Camera { max_depth: c2.max_depth, ..c1 }),
        c1.max_depth <= c2.max_depth,
        settles_within(get_ray_spec(c1, i, j, s0).0, c1.max_depth, objs, get_ray_spec(c1, i, j, s0).1),
    ensures
        sample_color_spec(c1, i, j, objs, s0) == sample_color_spec(c2, i, j, objs, s0),
{
    assert(defocus_sample_spec(c2, next_state(next_state(s0))) == defocus_sample_spec(
        c1,
        next_state(next_state(s0)),
    ));
    assert(get_ray_spec(c2, i, j, s0) == get_ray_spec(c1, i, j, s0));
    let (ray, s1) = get_ray_spec(c1, i, j, s0);
    lemma_ray_color_depth_monotone(ray, objs, s1, c1.max_depth, c2.max_depth);
}

/// The camera that renders one sample per pixel but is otherwise the same.
pub open spec fn single_sample_camera(c: Camera) -> Camera {
    Camera { samples_per_pixel: 1, ..c }
}

/// The fold of `remaining` single-sample renders of one pixel, each seeded
/// with the state the previous one ended in.
pub open spec fn singles_sum_spec(
    c: Camera,
    i: u64,
    j: u64,
    objs: Seq<Hittable>,
    acc: Color,
    s0: u64,
    remaining: nat,
) -> (Color, u64)
    decreases remaining,
{
    if remaining == 0 {
        (acc, s0)
    } else {
        let (col, s1) = render_pixel_spec(single_sample_camera(c), i, j, objs, s0);
        singles_sum_spec(c, i, j, objs, vadd(acc, col), s1, (remaining - 1) as nat)
    }
}

/// A single-sample pixel render equals that one sample exactly: the fold
/// starts from zero and dividing by one is exact in this arithmetic.
proof fn lemma_single_sample_pixel(c: Camera, i: u64, j: u64, objs: Seq<Hittable>, s0: u64)
    requires
        c.samples_per_pixel == 1,
    ensures
        render_pixel_spec(c, i, j, objs, s0) == sample_color_spec(c, i, j, objs, s0),
{
    let (sample, s1) = sample_color_spec(c, i, j, objs, s0);
    let (ray, sr) = get_ray_spec(c, i, j, s0);
    lemma_ray_color_in_range(ray, c.max_depth, objs, sr);
    crate::vec3::lemma_vadd_zero_left(sample);
    assert(sum_samples_spec(c, i, j, objs, vadd(vzero(), sample), s1, 0nat) == (
        vadd(vzero(), sample),
        s1,
    ));
    assert(sum_samples_spec(c, i, j, objs, vzero(), s0, 1nat) == (sample, s1));
    assert(sat(c.samples_per_pixel * (SCALE as int)) == SCALE as int);
    crate::vec3::lemma_vdivs_one(sample);
}

/// Sampling reads nothing but the shared projection fields and the depth
/// bound, so the single-sample camera draws the same sample.
proof fn lemma_sample_color_congruent(c: Camera, i: u64, j: u64, objs: Seq<Hittable>, s0: u64)
    ensures
        sample_color_spec(single_sample_camera(c), i, j, objs, s0) == sample_color_spec(
            c,
            i,
            j,
            objs,
            s0,
        ),
{
    let c1 = single_sample_camera(c);
    assert(defocus_sample_spec(c1, next_state(next_state(s0))) == defocus_sample_spec(
        c,
        next_state(next_state(s0)),
    ));
    assert(get_ray_spec(c1, i, j, s0) == get_ray_spec(c, i, j, s0));
}

/// The sample fold and the fold of single-sample renders agree step by
/// step.
proof fn lemma_sum_equals_singles(
    c: Camera,
    i: u64,
    j: u64,
    objs: Seq<Hittable>,
    acc: Color,
    s0: u64,
    n: nat,
)
    ensures
        sum_samples_spec(c, i, j, objs, acc, s0, n) == singles_sum_spec(c, i, j, objs, acc, s0, n),
    decreases n,
{
    if n > 0 {
        let c1 = single_sample_camera(c);
        lemma_single_sample_pixel(c1, i, j, objs, s0);
        lemma_sample_color_congruent(c, i, j, objs, s0);
        let (col, s1) = sample_color_spec(c, i, j, objs, s0);
        lemma_sum_equals_singles(c, i, j, objs, vadd(acc, col), s1, (n - 1) as nat);
    }
}

/// Law (averaging invariant): for a fixed scene and seed, a pixel
/// rendered with `N` samples equals the fold of `N` single-sample renders
/// of the same pixel — each seeded with the state the previous one ended
/// in — divided by `N`.
pub proof fn lemma_pixel_average_of_singles(
    c: Camera,
    i: u64,
    j: u64,
    objs: Seq<Hittable>,
    s0: u64,
)
    requires
        c.samples_per_pixel >= 1,
    ensures
        render_pixel_spec(c, i, j, objs, s0) == (
            vdivs(
                singles_sum_spec(c, i, j, objs, vzero(), s0, c.samples_per_pixel as nat).0,
                sat(c.samples_per_pixel * (SCALE as int)),
            ),
            singles_sum_spec(c, i, j, objs, vzero(), s0, c.samples_per_pixel as nat).1,
        ),
{
    lemma_sum_equals_singles(c, i, j, objs, vzero(), s0, c.samples_per_pixel as nat);
}

/// A fraction of a degree measure in `[0, 180)` over 720 lands in
/// `[0, 1/4)` of a turn — inside the domain of the turn trigonometry.
proof fn lemma_angle_fraction(deg: int)
    requires
        0 <= deg < 188743680,
    ensures
        0 <= fdiv(deg, sat(720 * (SCALE as int))) < SCALE,
{
    assert(sat(720 * (SCALE as int)) == 754974720);
    vstd::arithmetic::div_mod::lemma_div_pos_is_pos(deg * (SCALE as int), 754974720);
    assert(deg * (SCALE as int) < 754974720 * (SCALE as int)) by (nonlinear_arith)
        requires
            0 <= deg < 188743680,
    ;
    vstd::arithmetic::div_mod::lemma_multiply_divide_lt(
        deg * (SCALE as int),
        754974720,
        SCALE as int,
    );
}

/// A record the scene hands back carries the material of one of its
/// members.
pub proof fn lemma_list_hit_material_is_member(
    objs: Seq<Hittable>,
    r: Ray,
    ray_t: Interval,
    rec: HitRecord,
)
    requires
        list_hit_spec(objs, r, ray_t) == Some(rec),
    ensures
        exists|k: int|
            0 <= k < objs.len() && rec.material == #[trigger] hittable_material(objs[k]),
{
    crate::hittable_list::lemma_list_hit_nearest(objs, r, ray_t);
    let j = choose|j: int|
        0 <= j < objs.len() && #[trigger] hittable_hit_spec(objs[j], r, ray_t) == list_hit_spec(
            objs,
            r,
            ray_t,
        );
    assert(rec.material == hittable_material(objs[j]));
}

/// A record from a well-formed scene can always scatter.
pub proof fn lemma_list_hit_material_wf(
    objs: Seq<Hittable>,
    r: Ray,
    ray_t: Interval,
    rec: HitRecord,
)
    requires
        list_wf(objs),
        list_hit_spec(objs, r, ray_t) == Some(rec),
    ensures
        material_wf(rec.material),
{
    lemma_list_hit_material_is_member(objs, r, ray_t, rec);
    let k = choose|k: int|
        0 <= k < objs.len() && rec.material == #[trigger] hittable_material(objs[k]);
    assert(material_wf(hittable_material(objs[k])));
}

/// All channels lie in `[0, 1]`.
pub open spec fn color_unit(c: Color) -> bool {
    &&& 0 <= c.x.raw <= SCALE
    &&& 0 <= c.y.raw <= SCALE
    &&& 0 <= c.z.raw <= SCALE
}

/// Every attenuation this material can produce has channels in `[0, 1]`:
/// the diffuse and specular albedos are unit colors, and a clear
/// dielectric always attenuates by opaque white.
pub open spec fn material_attenuation_unit(m: crate::material::Material) -> bool {
    match m {
        crate::material::Material::Lambertian(l) => color_unit(l.albedo),
        crate::material::Material::Metal(mt) => color_unit(mt.albedo),
        crate::material::Material::Dielectric(_) => true,
    }
}

/// Every material in the scene attenuates by a unit color.
pub open spec fn list_attenuations_unit(objs: Seq<Hittable>) -> bool {
    forall|k: int|
        0 <= k < objs.len() ==> material_attenuation_unit(#[trigger] hittable_material(objs[k]))
}

/// The background gradient is a convex blend of two unit colors, so its
/// channels lie in `[0, 1]`.
proof fn lemma_background_unit(r: Ray)
    ensures
        color_unit(background_spec(r)),
{
    let unit_direction = vunit_or_zero(r.direction);
    let a = crate::fixed::fmin(
        crate::fixed::fmax(
            fdiv(fadd(unit_direction.y.raw as int, SCALE as int), sat(2 * (SCALE as int))),
            0,
        ),
        SCALE as int,
    );
    let b = fsub(SCALE as int, a);
    assert(crate::fixed::fmul(b, SCALE as int) == b) by {
        crate::fixed::lemma_fmul_one(b);
    }
    crate::fixed::lemma_fmul_unit(a, C_HALF as int);
    crate::fixed::lemma_fmul_unit(a, SKY_G_RAW as int);
    assert(crate::fixed::fmul(a, SCALE as int) == a) by {
        crate::fixed::lemma_fmul_one(a);
    }
}

/// Law: when every material in the scene attenuates by a unit color, the
/// estimator's channels lie in `[0, 1]`: the background is a convex
/// blend, absorption and depth exhaustion give black, and each bounce
/// multiplies elementwise by a factor in `[0, 1]`.
pub proof fn lemma_ray_color_unit(r: Ray, depth: u64, objs: Seq<Hittable>, s0: u64)
    requires
        list_attenuations_unit(objs),
    ensures
        color_unit(ray_color_spec(r, depth, objs, s0).0),
    decreases depth,
{
    if depth != 0 {
        match list_hit_spec(objs, r, scene_interval()) {
            Some(rec) => {
                lemma_list_hit_material_is_member(objs, r, scene_interval(), rec);
                let k = choose|k: int|
                    0 <= k < objs.len() && rec.material == #[trigger] hittable_material(objs[k]);
                assert(material_attenuation_unit(rec.material));
                let (sc, s1) = scatter_spec(rec.material, r, rec, s0);
                match sc {
                    Some(pair) => {
                        lemma_ray_color_unit(pair.0, (depth - 1) as u64, objs, s1);
                        let att = pair.1;
                        assert(color_unit(att));
                        let c = ray_color_spec(pair.0, (depth - 1) as u64, objs, s1).0;
                        crate::fixed::lemma_fmul_unit(att.x.raw as int, c.x.raw as int);
                        crate::fixed::lemma_fmul_unit(att.y.raw as int, c.y.raw as int);
                        crate::fixed::lemma_fmul_unit(att.z.raw as int, c.z.raw as int);
                    },
                    None => {},
                }
            },
            None => {
                lemma_background_unit(r);
            },
        }
    }
}

/// The sample fold's channels stay nonnegative and grow by at most one
/// unit per sample.
proof fn lemma_sum_samples_bound(
    c: Camera,
    i: u64,
    j: u64,
    objs: Seq<Hittable>,
    acc: Color,
    s0: u64,
    n: nat,
)
    requires
        list_attenuations_unit(objs),
        0 <= acc.x.raw,
        0 <= acc.y.raw,
        0 <= acc.z.raw,
    ensures
        ({
            let sum = sum_samples_spec(c, i, j, objs, acc, s0, n).0;
            &&& 0 <= sum.x.raw <= acc.x.raw + n * (SCALE as int)
            &&& 0 <= sum.y.raw <= acc.y.raw + n * (SCALE as int)
            &&& 0 <= sum.z.raw <= acc.z.raw + n * (SCALE as int)
        }),
    decreases n,
{
    if n != 0 {
        let (sample, s1) = sample_color_spec(c, i, j, objs, s0);
        let (ray, sr) = get_ray_spec(c, i, j, s0);
        lemma_ray_color_unit(ray, c.max_depth, objs, sr);
        lemma_sum_samples_bound(c, i, j, objs, vadd(acc, sample), s1, (n - 1) as nat);
    }
}

/// Law: a pixel's averaged color likewise has channels in `[0, 1]` when
/// every material in the scene attenuates by a unit color.
pub proof fn lemma_render_pixel_unit(c: Camera, i: u64, j: u64, objs: Seq<Hittable>, s0: u64)
    requires
        list_attenuations_unit(objs),
        c.samples_per_pixel >= 1,
    ensures
        color_unit(render_pixel_spec(c, i, j, objs, s0).0),
{
    let n = c.samples_per_pixel as nat;
    lemma_sum_samples_bound(c, i, j, objs, vzero(), s0, n);
    let sum = sum_samples_spec(c, i, j, objs, vzero(), s0, n).0;
    let d = sat(c.samples_per_pixel * (SCALE as int));
    assert(c.samples_per_pixel * (SCALE as int) >= SCALE as int) by (nonlinear_arith)
        requires
            c.samples_per_pixel >= 1,
    ;
    crate::fixed::lemma_fdiv_le_one(sum.x.raw as int, d);
    crate::fixed::lemma_fdiv_le_one(sum.y.raw as int, d);
    crate::fixed::lemma_fdiv_le_one(sum.z.raw as int, d);
}

/// Every pixel of a render has channels in `[0, 1]` when every material
/// in the scene attenuates by a unit color.
proof fn lemma_render_pixels_unit(c: Camera, objs: Seq<Hittable>, s0: u64, n: nat)
    requires
        list_attenuations_unit(objs),
        c.samples_per_pixel >= 1,
    ensures
        forall|p: int|
            0 <= p < n ==> color_unit(#[trigger] render_pixels_spec(c, objs, s0, n).0[p]),
        render_pixels_spec(c, objs, s0, n).0.len() == n,
    decreases n,
{
    if n != 0 {
        lemma_render_pixels_unit(c, objs, s0, (n - 1) as nat);
        let (prefix, s1) = render_pixels_spec(c, objs, s0, (n - 1) as nat);
        let k = (n - 1) as int;
        let i = (k % (c.image_width as int)) as u64;
        let j = (k / (c.image_width as int)) as u64;
        lemma_render_pixel_unit(c, i, j, objs, s1);
        assert forall|p: int| 0 <= p < n implies color_unit(
            #[trigger] render_pixels_spec(c, objs, s0, n).0[p],
        ) by {
            if p < n - 1 {
                assert(color_unit(render_pixels_spec(c, objs, s0, (n - 1) as nat).0[p]));
            }
        }
    }
}

} // verus!
