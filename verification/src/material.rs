//! Material scattering models.
//!
//! A material, given an incoming ray and a hit record, decides how the ray
//! scatters: `None` means the ray is absorbed, `Some` carries the scattered
//! ray and a per-channel attenuation. Randomness is drawn from the explicit
//! generator handle, so every outcome — including the final generator state
//! — is pinned by a spec function of the state at entry.

use vstd::prelude::*;

use crate::color::Color;
use crate::fixed::fabs;
use crate::fixed::fadd;
use crate::fixed::fcos_turn;
use crate::fixed::fdiv;
use crate::fixed::fmin;
use crate::fixed::fmul;
use crate::fixed::fneg;
use crate::fixed::fsin_turn;
use crate::fixed::fsqrt;
use crate::fixed::fsub;
use crate::fixed::Real;
use crate::fixed::SCALE;
use crate::hittable::HitRecord;
use crate::ray::Ray;
use crate::rng::next_state;
use crate::rng::unit_raw;
use crate::rng::Rng;
use crate::vec3::rl;
use crate::vec3::vadd;
use crate::vec3::vdot;
use crate::vec3::vnorm_sq;
use crate::vec3::vscale;
use crate::vec3::vsub;
use crate::vec3::vunit;
use crate::vec3::vunit_or_zero;
use crate::vec3::Vec3;

verus! {

/// Spec mirror of the unit-sphere sample drawn from two generator steps:
/// the first step picks the azimuth as a fraction of a turn, the second the
/// cosine of the polar angle (so its sine is the square root of one minus
/// its square, with no inverse cosine needed).
pub open spec fn sphere_vec_spec(s0: u64) -> Vec3 {
    let u = unit_raw(next_state(s0));
    let v = unit_raw(next_state(next_state(s0)));
    let ct = fcos_turn(u);
    let st = fsin_turn(u);
    let cp = fsub(fadd(v, v), SCALE as int);
    let sp = fsqrt(fsub(SCALE as int, fmul(cp, cp)));
    Vec3 { x: rl(fmul(sp, ct)), y: rl(fmul(sp, st)), z: rl(cp) }
}

/// Generate a random vector on the unit sphere via the inverse
/// spherical-coordinate transform: an azimuth uniform over the full turn
/// and a polar cosine uniform over `[-1, 1)`.
fn random_vector_on_unit_sphere(rng: &mut Rng) -> (r: Vec3)
    ensures
        final (rng).state == next_state(next_state(old(rng).state)),
        r == sphere_vec_spec(old(rng).state),
{
    let u = rng.next_unit();
    let v = rng.next_unit();
    let cos_theta = u.cos_turn();
    let sin_theta = u.sin_turn();
    let cos_phi = v.add(v).sub(Real::one());
    let sin_phi = Real::one().sub(cos_phi.mul(cos_phi)).sqrt();
    Vec3::new(sin_phi.mul(cos_theta), sin_phi.mul(sin_theta), cos_phi)
}

/// Spec mirror of specular reflection about a normal:
/// `v - 2 * dot(v, n) * n`.
pub open spec fn vreflect(v: Vec3, n: Vec3) -> Vec3 {
    let d = vdot(v, n);
    vsub(v, vscale(fadd(d, d), n))
}

#[inline]
fn reflect(v: &Vec3, n: &Vec3) -> (r: Vec3)
    ensures
        r == vreflect(*v, *n),
{
    let d = v.dot(*n);
    v.sub(n.scale(d.add(d)))
}

/// Spec mirror of refraction by Snell's law with ratio `etai/etat`:
/// the perpendicular part `ratio * (uv + cos * n)` plus the parallel part
/// `-sqrt(|1 - |perp|^2|) * n`.
pub open spec fn vrefract(uv: Vec3, n: Vec3, ratio: int) -> Vec3 {
    let cos_theta = fmin(fneg(vdot(uv, n)), SCALE as int);
    let perp = vscale(ratio, vadd(uv, vscale(cos_theta, n)));
    let par = vscale(fneg(fsqrt(fabs(fsub(SCALE as int, vnorm_sq(perp))))), n);
    vadd(perp, par)
}

#[inline]
fn refract(uv: &Vec3, n: &Vec3, etai_over_etat: Real) -> (r: Vec3)
    ensures
        r == vrefract(*uv, *n, etai_over_etat.raw as int),
{
    let cos_theta = uv.dot(*n).neg().min(Real::one());
    let r_out_perp = uv.add(n.scale(cos_theta)).scale(etai_over_etat);
    let r_out_parallel = n.scale(
        Real::one().sub(r_out_perp.norm_squared()).abs().sqrt().neg(),
    );
    r_out_perp.add(r_out_parallel)
}

/// Opaque white: the attenuation of a clear dielectric.
pub open spec fn white() -> Color {
    Vec3 { x: Real { raw: SCALE }, y: Real { raw: SCALE }, z: Real { raw: SCALE } }
}

/// All components are exactly zero.
pub open spec fn vis_zero(v: Vec3) -> bool {
    v.x.raw == 0 && v.y.raw == 0 && v.z.raw == 0
}

/// An ideal diffuse surface.
#[derive(Clone, Copy, PartialEq, Eq, Structural, Debug)]
pub struct Lambertian {
    pub albedo: Color,
}

/// A specular surface with a roughness parameter.
#[derive(Clone, Copy, PartialEq, Eq, Structural, Debug)]
pub struct Metal {
    pub albedo: Color,
    pub fuzz: Real,
}

/// A transparent refractive surface.
#[derive(Clone, Copy, PartialEq, Eq, Structural, Debug)]
pub struct Dielectric {
    /// Refractive index in vacuum or air, or the ratio of the material's
    /// refractive index over the refractive index of the enclosing media.
    pub refraction_index: Real,
}

/// One of the known material kinds, dispatched by pattern matching.
#[derive(Clone, Copy, PartialEq, Eq, Structural, Debug)]
pub enum Material {
    Lambertian(Lambertian),
    Metal(Metal),
    Dielectric(Dielectric),
}

/// Result and final generator state of a Lambertian scatter: the normal
/// plus a unit-sphere sample, with the normal substituted when that sum is
/// exactly zero (the degenerate case that would otherwise defeat
/// normalization downstream).
pub open spec fn lambertian_scatter_spec(m: Lambertian, rec: HitRecord, s0: u64) -> (
    Option<(Ray, Color)>,
    u64,
) {
    let d = vadd(rec.normal, sphere_vec_spec(s0));
    let dir = if vis_zero(d) {
        rec.normal
    } else {
        d
    };
    (Some((Ray { origin: rec.p, direction: dir }, m.albedo)), next_state(next_state(s0)))
}

/// Result and final generator state of a Metal scatter: the normalized
/// reflection perturbed by `fuzz` times a unit-sphere sample, absorbed when
/// the perturbed direction does not leave the surface. A reflection whose
/// squared norm rounds to zero cannot be normalized and is absorbed.
pub open spec fn metal_scatter_spec(m: Metal, r_in: Ray, rec: HitRecord, s0: u64) -> (
    Option<(Ray, Color)>,
    u64,
) {
    let s2 = next_state(next_state(s0));
    let refl = vreflect(r_in.direction, rec.normal);
    if vnorm_sq(refl) == 0 {
        (None, s2)
    } else {
        let dir = vadd(vunit(refl), vscale(m.fuzz.raw as int, sphere_vec_spec(s0)));
        if vdot(dir, rec.normal) > 0 {
            (Some((Ray { origin: rec.p, direction: dir }, m.albedo)), s2)
        } else {
            (None, s2)
        }
    }
}

/// Spec mirror of Schlick's reflectance approximation
/// `r0 + (1 - r0) * (1 - cos)^5` with `r0 = ((1 - ri) / (1 + ri))^2`.
pub open spec fn schlick(cosine: int, ri: int) -> int
    recommends
        fadd(SCALE as int, ri) != 0,
{
    let q = fdiv(fsub(SCALE as int, ri), fadd(SCALE as int, ri));
    let r0 = fmul(q, q);
    let p = fsub(SCALE as int, cosine);
    let p5 = fmul(fmul(fmul(fmul(p, p), p), p), p);
    fadd(r0, fmul(fsub(SCALE as int, r0), p5))
}

/// Result and final generator state of a Dielectric scatter. The ratio is
/// the reciprocal index when the ray arrives from outside. Total internal
/// reflection (`ratio * sin > 1`) forces a reflection and draws nothing;
/// otherwise one uniform draw chooses reflection when it falls below the
/// Schlick reflectance, else refraction. The attenuation is always opaque
/// white, and the scatter always succeeds.
pub open spec fn dielectric_scatter_spec(m: Dielectric, r_in: Ray, rec: HitRecord, s0: u64) -> (
    Option<(Ray, Color)>,
    u64,
)
    recommends
        m.refraction_index.raw > 0,
{
    let ratio = if rec.front_face {
        fdiv(SCALE as int, m.refraction_index.raw as int)
    } else {
        m.refraction_index.raw as int
    };
    let unit_dir = vunit_or_zero(r_in.direction);
    let cos_theta = fmin(fneg(vdot(unit_dir, rec.normal)), SCALE as int);
    let sin_theta = fsqrt(fsub(SCALE as int, fmul(cos_theta, cos_theta)));
    if fmul(ratio, sin_theta) > SCALE as int {
        (Some((Ray { origin: rec.p, direction: vreflect(unit_dir, rec.normal) }, white())), s0)
    } else {
        let s1 = next_state(s0);
        if schlick(cos_theta, ratio) > unit_raw(s1) {
            (Some((Ray { origin: rec.p, direction: vreflect(unit_dir, rec.normal) }, white())), s1)
        } else {
            (
                Some((Ray { origin: rec.p, direction: vrefract(unit_dir, rec.normal, ratio) }, white())),
                s1,
            )
        }
    }
}

/// The well-formedness a material needs for its scatter to be defined: a
/// dielectric's refractive index must be positive (the formulas divide by
/// it and by one plus its ratio).
pub open spec fn material_wf(m: Material) -> bool {
    match m {
        Material::Dielectric(d) => d.refraction_index.raw > 0,
        _ => true,
    }
}

/// Result and final generator state of a scatter, by material kind.
pub open spec fn scatter_spec(m: Material, r_in: Ray, rec: HitRecord, s0: u64) -> (
    Option<(Ray, Color)>,
    u64,
)
    recommends
        material_wf(m),
{
    match m {
        Material::Lambertian(l) => lambertian_scatter_spec(l, rec, s0),
        Material::Metal(mt) => metal_scatter_spec(mt, r_in, rec, s0),
        Material::Dielectric(d) => dielectric_scatter_spec(d, r_in, rec, s0),
    }
}

/// Law: a metal with zero fuzz reflects deterministically. The scattered
/// direction is exactly the normalized specular reflection, whatever the
/// generator state; the random perturbation term vanishes exactly.
pub proof fn lemma_metal_zero_fuzz_deterministic(m: Metal, r_in: Ray, rec: HitRecord, s0: u64)
    requires
        m.fuzz.raw == 0,
    ensures
        ({
            let refl = vreflect(r_in.direction, rec.normal);
            metal_scatter_spec(m, r_in, rec, s0) == (
                if vnorm_sq(refl) == 0 {
                    None
                } else if vdot(vunit(refl), rec.normal) > 0 {
                    Some((Ray { origin: rec.p, direction: vunit(refl) }, m.albedo))
                } else {
                    None::<(Ray, Color)>
                },
                next_state(next_state(s0)),
            )
        }),
{
    let refl = vreflect(r_in.direction, rec.normal);
    if vnorm_sq(refl) != 0 {
        crate::vec3::lemma_vscale_zero(sphere_vec_spec(s0));
        crate::vec3::lemma_vunit_in_range(refl);
        crate::vec3::lemma_vadd_zero_right(vunit(refl));
    }
}

/// Law: with zero fuzz the metal's outcome does not depend on the
/// generator state at all.
pub proof fn lemma_metal_zero_fuzz_state_independent(
    m: Metal,
    r_in: Ray,
    rec: HitRecord,
    s0: u64,
    s1: u64,
)
    requires
        m.fuzz.raw == 0,
    ensures
        metal_scatter_spec(m, r_in, rec, s0).0 == metal_scatter_spec(m, r_in, rec, s1).0,
{
    lemma_metal_zero_fuzz_deterministic(m, r_in, rec, s0);
    lemma_metal_zero_fuzz_deterministic(m, r_in, rec, s1);
}

/// Law: a dielectric with refractive index one does not bend light. At
/// exact normal incidence — the unit incoming direction opposite a normal
/// of exactly unit squared norm — the scatter deterministically refracts
/// and returns the incoming direction unchanged. (Away from normal
/// incidence the fixed-point square root may bend the direction by a
/// rounding step, so exact identity is stated where the arithmetic is
/// exact.)
pub proof fn lemma_dielectric_unity_identity(m: Dielectric, r_in: Ray, rec: HitRecord, s0: u64)
    requires
        m.refraction_index.raw == SCALE,
        crate::vec3::vin_range(rec.normal),
        vnorm_sq(rec.normal) == SCALE as int,
        vunit_or_zero(r_in.direction) == crate::vec3::vneg(rec.normal),
    ensures
        dielectric_scatter_spec(m, r_in, rec, s0).0 == Some(
            (Ray { origin: rec.p, direction: vunit_or_zero(r_in.direction) }, white()),
        ),
        dielectric_scatter_spec(m, r_in, rec, s0).1 == next_state(s0),
{
    let n = rec.normal;
    let u = crate::vec3::vneg(n);
    crate::fixed::lemma_fdiv_one(SCALE as int);
    assert(vdot(u, n) == vdot(n, u));
    crate::vec3::lemma_vdot_neg_right(n, n);
    assert(vdot(u, n) == -(SCALE as int));
    crate::fixed::lemma_fmul_one(SCALE as int);
    crate::fixed::lemma_fmul_one(0);
    vstd::arithmetic::div_mod::lemma_div_of0(fadd(SCALE as int, SCALE as int));
    vstd::arithmetic::div_mod::lemma_div_of0(SCALE as int);
    crate::vec3::lemma_vscale_one(n);
    assert(vadd(u, n) == crate::vec3::vzero());
    crate::vec3::lemma_vscale_zero(crate::vec3::vzero());
    crate::fixed::lemma_fsqrt_one();
    crate::vec3::lemma_vscale_neg_one(n);
    crate::vec3::lemma_vadd_zero_left(u);
}

/// Law: a dielectric with refractive index one is never forced into total
/// internal reflection, whatever the incidence: the refraction condition
/// `ratio * sin > 1` cannot hold at unit ratio, so the scatter always
/// reaches the stochastic choice and always draws exactly one value.
pub proof fn lemma_dielectric_unity_never_forced(m: Dielectric, r_in: Ray, rec: HitRecord, s0: u64)
    requires
        m.refraction_index.raw == SCALE,
    ensures
        dielectric_scatter_spec(m, r_in, rec, s0).1 == next_state(s0),
{
    crate::fixed::lemma_fdiv_one(SCALE as int);
    let ratio = SCALE as int;
    let unit_dir = vunit_or_zero(r_in.direction);
    let cos_theta = fmin(fneg(vdot(unit_dir, rec.normal)), SCALE as int);
    crate::vec3::lemma_fmul_sq_nonneg(cos_theta);
    let arg = fsub(SCALE as int, fmul(cos_theta, cos_theta));
    crate::fixed::lemma_fsqrt_le_one(arg);
    let sin_theta = fsqrt(arg);
    crate::fixed::lemma_fsqrt_nonneg(arg);
    crate::fixed::lemma_fmul_one(sin_theta);
}

impl Lambertian {
    /// A diffuse material with the given albedo.
    pub fn new(albedo: Color) -> (r: Lambertian)
        ensures
            r.albedo == albedo,
    {
        Lambertian { albedo }
    }

    /// Diffuse scatter: never absorbs, and the attenuation is exactly the
    /// albedo.
    pub fn scatter(&self, _r_in: &Ray, rec: &HitRecord, rng: &mut Rng) -> (res: Option<
        (Ray, Color),
    >)
        ensures
            res == lambertian_scatter_spec(*self, *rec, old(rng).state).0,
            final (rng).state == lambertian_scatter_spec(*self, *rec, old(rng).state).1,
            res is Some,
            res matches Some((scattered, attenuation)) ==> attenuation == self.albedo
                && scattered.origin == rec.p,
    {
        let sv = random_vector_on_unit_sphere(rng);
        let mut scattered = rec.normal.add(sv);

        // Catch degenerate scattered rays: every component rounds to zero.
        if scattered.x.raw == 0 && scattered.y.raw == 0 && scattered.z.raw == 0 {
            scattered = rec.normal;
        }

        let scattered = Ray::new(rec.p, scattered);

        Some((scattered, self.albedo))
    }
}

impl Metal {
    /// A specular material; the roughness is capped at one.
    pub fn new(albedo: Color, fuzz: Real) -> (r: Metal)
        ensures
            r.albedo == albedo,
            r.fuzz.raw as int == crate::fixed::fmin(fuzz.raw as int, SCALE as int),
    {
        Metal { albedo, fuzz: fuzz.min(Real::one()) }
    }

    /// Specular scatter: reflect, normalize, perturb by `fuzz`; absorb when
    /// the perturbed ray would reenter the surface. On success the
    /// attenuation is exactly the albedo.
    pub fn scatter(&self, r_in: &Ray, rec: &HitRecord, rng: &mut Rng) -> (res: Option<
        (Ray, Color),
    >)
        ensures
            res == metal_scatter_spec(*self, *r_in, *rec, old(rng).state).0,
            final (rng).state == metal_scatter_spec(*self, *r_in, *rec, old(rng).state).1,
            res matches Some((scattered, attenuation)) ==> attenuation == self.albedo
                && scattered.origin == rec.p,
    {
        let sv = random_vector_on_unit_sphere(rng);
        let reflected = reflect(&r_in.direction(), &rec.normal);
        let nsq = reflected.norm_squared();
        if nsq.raw == 0 {
            return None;
        }
        let direction = reflected.normalize().add(sv.scale(self.fuzz));

        let scattered = Ray::new(rec.p, direction);

        if Real::zero().lt(scattered.direction().dot(rec.normal)) {
            Some((scattered, self.albedo))
        } else {
            None
        }
    }
}

impl Dielectric {
    /// A refractive material with the given index.
    pub fn new(refraction_index: Real) -> (r: Dielectric)
        ensures
            r.refraction_index == refraction_index,
    {
        Dielectric { refraction_index }
    }

    /// Schlick's approximation for reflectance.
    fn reflectance(cosine: Real, refraction_index: Real) -> (r: Real)
        requires
            fadd(SCALE as int, refraction_index.raw as int) != 0,
        ensures
            r.raw as int == schlick(cosine.raw as int, refraction_index.raw as int),
    {
        let one = Real::one();
        let q = one.sub(refraction_index).div(one.add(refraction_index));
        let r0 = q.mul(q);
        let p = one.sub(cosine);
        let p5 = p.mul(p).mul(p).mul(p).mul(p);
        r0.add(one.sub(r0).mul(p5))
    }

    /// Refractive scatter: never absorbs, and the attenuation is opaque
    /// white.
    pub fn scatter(&self, r_in: &Ray, rec: &HitRecord, rng: &mut Rng) -> (res: Option<
        (Ray, Color),
    >)
        requires
            self.refraction_index.raw > 0,
        ensures
            res == dielectric_scatter_spec(*self, *r_in, *rec, old(rng).state).0,
            final (rng).state == dielectric_scatter_spec(*self, *r_in, *rec, old(rng).state).1,
            res is Some,
            res matches Some((scattered, attenuation)) ==> attenuation == white()
                && scattered.origin == rec.p,
    {
        let attenuation = Vec3::new(Real::one(), Real::one(), Real::one());
        let refraction_ratio = if rec.front_face {
            Real::one().div(self.refraction_index)
        } else {
            self.refraction_index
        };
        proof {
            vstd::arithmetic::div_mod::lemma_div_pos_is_pos(
                (SCALE as int) * (SCALE as int),
                self.refraction_index.raw as int,
            );
        }

        let unit_direction = r_in.direction().unit_or_zero();
        let cos_theta = unit_direction.dot(rec.normal).neg().min(Real::one());
        let sin_theta = Real::one().sub(cos_theta.mul(cos_theta)).sqrt();

        let cannot_refract = Real::one().lt(refraction_ratio.mul(sin_theta));
        let direction = if cannot_refract {
            reflect(&unit_direction, &rec.normal)
        } else {
            let reflectance = Self::reflectance(cos_theta, refraction_ratio);
            if rng.next_unit().lt(reflectance) {
                reflect(&unit_direction, &rec.normal)
            } else {
                refract(&unit_direction, &rec.normal, refraction_ratio)
            }
        };

        let scattered = Ray::new(rec.p, direction);

        Some((scattered, attenuation))
    }
}

impl Material {
    /// How this material scatters the incoming ray at the given hit.
    pub fn scatter(&self, r_in: &Ray, rec: &HitRecord, rng: &mut Rng) -> (res: Option<
        (Ray, Color),
    >)
        requires
            material_wf(*self),
        ensures
            res == scatter_spec(*self, *r_in, *rec, old(rng).state).0,
            final (rng).state == scatter_spec(*self, *r_in, *rec, old(rng).state).1,
    {
        match self {
            Material::Lambertian(l) => l.scatter(r_in, rec, rng),
            Material::Metal(m) => m.scatter(r_in, rec, rng),
            Material::Dielectric(d) => d.scatter(r_in, rec, rng),
        }
    }
}

} // verus!
