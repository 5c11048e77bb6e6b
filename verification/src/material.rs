//! Material scattering: diffuse, fuzzy metal, and dielectric glass.
//!
//! Each material's behavior is split in two: a deterministic core that takes
//! the sampled random data as an argument and carries an exact contract, and a
//! thin `Scatterable` method that draws the sample and calls the core.

use vstd::prelude::*;
use crate::color::Color;
use crate::fixed::{Fx, SCALE, fx_one, mag};
use crate::hit_record::HitRecord;
use crate::ray::Ray;
use crate::vector::Vec3;

verus! {

/// A surface response: from an incoming ray and a hit, possibly an outgoing
/// ray and an attenuation color.
pub trait Scatterable {
    /// The material's construction-time invariant.
    spec fn wf_v(&self) -> bool;

    /// Scatter the incoming ray at the hit; `None` means the ray is absorbed.
    fn scatter(&self, ray: &Ray, hit_record: &HitRecord, rng: &mut rand::rngs::StdRng) -> (res:
        Option<(Ray, Color)>)
        requires
            self.wf_v(),
            ray.direction.len_sq_v()@ != 0,
        ensures
            res matches Some(sc) ==> sc.0.origin == hit_record.point,
    ;
}

/// The closed set of material variants a sphere can carry.
#[derive(Clone, Copy, Debug, PartialEq, Eq, Structural)]
pub enum Material {
    Lambertian(Lambertian),
    Metallic(Metal),
    Glass(Glass),
}

impl Scatterable for Material {
    /// The carried variant's invariant.
    open spec fn wf_v(&self) -> bool {
        match self {
            Material::Lambertian(l) => l.wf_v(),
            Material::Metallic(m) => m.wf_v(),
            Material::Glass(g) => g.wf_v(),
        }
    }

    /// Dispatch to the carried variant: the result is one the variant's own
    /// scattering can produce.
    fn scatter(&self, ray: &Ray, hit_record: &HitRecord, rng: &mut rand::rngs::StdRng) -> (res:
        Option<(Ray, Color)>)
        ensures
            scatter_possible(*self, *ray, *hit_record, res),
    {
        match self {
            Material::Lambertian(l) => l.scatter(ray, hit_record, rng),
            Material::Metallic(m) => m.scatter(ray, hit_record, rng),
            Material::Glass(g) => g.scatter(ray, hit_record, rng),
        }
    }
}

/// The results a material's `scatter` can hand back: some admissible sample
/// of its random source produced them through the deterministic core.
pub open spec fn scatter_possible(
    m: Material,
    ray: Ray,
    hit_record: HitRecord,
    res: Option<(Ray, Color)>,
) -> bool {
    match m {
        Material::Lambertian(l) => exists|u: Vec3|
            crate::vector::unit_sample_v(u) && res == Some(l.scatter_with_v(hit_record, u)),
        Material::Metallic(mt) => exists|u: Vec3|
            crate::vector::unit_sample_v(u) && res == mt.scatter_with_v(ray, hit_record, u),
        Material::Glass(g) => exists|d: Fx|
            0 <= d@ < SCALE && res == Some(g.scatter_with_v(ray, hit_record, d)),
    }
}

/// A diffuse surface that always scatters, tinted by its albedo.
#[derive(Clone, Copy, Debug, PartialEq, Eq, Structural)]
pub struct Lambertian {
    pub albedo: Color,
}

impl Lambertian {
    /// A diffuse material with the given albedo.
    pub fn new(albedo: Color) -> (l: Lambertian)
        ensures
            l == (Lambertian { albedo }),
    {
        Lambertian { albedo }
    }

    /// What `scatter_with` returns.
    pub open spec fn scatter_with_v(self, hit_record: HitRecord, sample_dir: Vec3) -> (Ray, Color) {
        let d = hit_record.normal.add_v(sample_dir);
        let direction = if d.near_zero_v() {
            hit_record.normal
        } else {
            d
        };
        (Ray { origin: hit_record.point, direction }, self.albedo)
    }

    /// Diffuse scattering for a given sampled unit direction: the outgoing
    /// direction is `normal + sample`, or exactly the normal itself when that
    /// sum is degenerate. Always scatters; the attenuation is the albedo.
    pub fn scatter_with(&self, hit_record: &HitRecord, sample_dir: Vec3) -> (res: (Ray, Color))
        ensures
            res == self.scatter_with_v(*hit_record, sample_dir),
            hit_record.normal.add_v(sample_dir).near_zero_v() ==> res.0.direction
                == hit_record.normal,
    {
        let mut scatter_direction = hit_record.normal.add(sample_dir);
        if scatter_direction.near_zero() {
            scatter_direction = hit_record.normal;
        }
        (Ray::new(hit_record.point, scatter_direction), self.albedo)
    }
}

impl Scatterable for Lambertian {
    /// A diffuse material is always well formed.
    open spec fn wf_v(&self) -> bool {
        true
    }

    /// Draw a unit direction and scatter it diffusely: always `Some`, the
    /// attenuation is the albedo, and the result comes from the core applied
    /// to some admissible sample.
    fn scatter(&self, ray: &Ray, hit_record: &HitRecord, rng: &mut rand::rngs::StdRng) -> (res:
        Option<(Ray, Color)>)
        ensures
            (res is Some),
            (res matches Some(sc) ==> sc.1 == self.albedo),
            (exists|u: Vec3|
                crate::vector::unit_sample_v(u) && res == Some(
                    self.scatter_with_v(*hit_record, u),
                )),
    {
        let sample_dir = Vec3::random_unit_vec3(rng);
        let r = Some(self.scatter_with(hit_record, sample_dir));
        proof {
            assert(crate::vector::unit_sample_v(sample_dir) && r == Some(
                self.scatter_with_v(*hit_record, sample_dir),
            ));
        }
        r
    }
}

impl Default for Lambertian {
    /// A diffuse material with black albedo.
    fn default() -> (l: Lambertian)
        ensures
            l.albedo == Color::black_v(),
    {
        Lambertian { albedo: Color::black() }
    }
}

/// A reflective surface with a fuzz factor perturbing the mirror direction.
#[derive(Clone, Copy, Debug, PartialEq, Eq, Structural)]
pub struct Metal {
    pub albedo: Color,
    pub fuzz: Fx,
}

impl Metal {
    /// A metal with the given albedo and fuzz.
    pub fn new(albedo: Color, fuzz: Fx) -> (m: Metal)
        ensures
            m == (Metal { albedo, fuzz }),
    {
        Metal { albedo, fuzz }
    }

    /// What `scatter_with` returns.
    pub open spec fn scatter_with_v(self, ray: Ray, hit_record: HitRecord, fuzz_dir: Vec3) -> Option<
        (Ray, Color),
    > {
        let reflected = reflect_v(ray.direction, hit_record.normal);
        let direction = reflected.add_v(fuzz_dir.mul_scalar_v(self.fuzz));
        if direction.dot_v(hit_record.normal)@ > 0 {
            Some((Ray { origin: hit_record.point, direction }, self.albedo))
        } else {
            None
        }
    }

    /// Mirror reflection perturbed by `fuzz` times a sampled unit direction.
    /// The ray scatters exactly when the perturbed direction still points away
    /// from the surface; otherwise it is absorbed.
    pub fn scatter_with(&self, ray: &Ray, hit_record: &HitRecord, fuzz_dir: Vec3) -> (res: Option<
        (Ray, Color),
    >)
        ensures
            res == self.scatter_with_v(*ray, *hit_record, fuzz_dir),
    {
        let reflected = reflect(&ray.direction, &hit_record.normal);
        let scattered = Ray::new(hit_record.point, reflected.add(fuzz_dir.mul_scalar(self.fuzz)));
        let d = scattered.direction.dot(&hit_record.normal);
        if d.raw > 0 {
            Some((scattered, self.albedo))
        } else {
            None
        }
    }
}

impl Scatterable for Metal {
    /// A metal is always well formed.
    open spec fn wf_v(&self) -> bool {
        true
    }

    /// Draw a unit direction for the fuzz and reflect: the result is the core
    /// applied to some admissible sample, `Some` exactly when that perturbed
    /// reflection still points away from the surface. Without fuzz no draw
    /// decides: the ray scatters exactly when the mirror reflection does.
    fn scatter(&self, ray: &Ray, hit_record: &HitRecord, rng: &mut rand::rngs::StdRng) -> (res:
        Option<(Ray, Color)>)
        ensures
            (exists|u: Vec3|
                crate::vector::unit_sample_v(u) && res == self.scatter_with_v(
                    *ray,
                    *hit_record,
                    u,
                )),
            self.fuzz@ == 0 ==> ((res is Some) <==> reflect_v(
                ray.direction,
                hit_record.normal,
            ).dot_v(hit_record.normal)@ > 0),
    {
        let fuzz_dir = Vec3::random_unit_vec3(rng);
        let r = self.scatter_with(ray, hit_record, fuzz_dir);
        proof {
            assert(crate::vector::unit_sample_v(fuzz_dir) && r == self.scatter_with_v(
                *ray,
                *hit_record,
                fuzz_dir,
            ));
            if self.fuzz@ == 0 {
                lemma_metal_zero_fuzz(*self, *ray, *hit_record, fuzz_dir);
            }
        }
        r
    }
}

/// Without fuzz the perturbation vanishes exactly, so whether a metal
/// scatters does not depend on the drawn direction: it scatters exactly when
/// the mirror reflection still points away from the surface.
pub proof fn lemma_metal_zero_fuzz(m: Metal, ray: Ray, hit_record: HitRecord, u: Vec3)
    requires
        m.fuzz@ == 0,
    ensures
        (m.scatter_with_v(ray, hit_record, u) is Some) <==> reflect_v(
            ray.direction,
            hit_record.normal,
        ).dot_v(hit_record.normal)@ > 0,
{
    let reflected = reflect_v(ray.direction, hit_record.normal);
    assert(u.x@ * m.fuzz@ == 0 && u.y@ * m.fuzz@ == 0 && u.z@ * m.fuzz@ == 0) by (nonlinear_arith)
        requires
            m.fuzz@ == 0,
    ;
    assert(u.mul_scalar_v(m.fuzz).x@ == 0 && u.mul_scalar_v(m.fuzz).y@ == 0 && u.mul_scalar_v(
        m.fuzz,
    ).z@ == 0);
    assert(reflected.add_v(u.mul_scalar_v(m.fuzz)) == reflected);
}

impl Default for Metal {
    /// A metal with black albedo and no fuzz.
    fn default() -> (m: Metal)
        ensures
            m.albedo == Color::black_v(),
            m.fuzz@ == 0,
    {
        Metal { albedo: Color::black(), fuzz: Fx { raw: 0 } }
    }
}

/// A clear dielectric that refracts or reflects and absorbs nothing.
#[derive(Clone, Copy, Debug, PartialEq, Eq, Structural)]
pub struct Glass {
    pub refraction_index: Fx,
}

impl Glass {
    /// A dielectric with the given positive refraction index.
    pub fn new(refraction_index: Fx) -> (g: Glass)
        requires
            refraction_index@ > 0,
        ensures
            g == (Glass { refraction_index }),
    {
        Glass { refraction_index }
    }

    /// What `scatter_with` returns.
    pub open spec fn scatter_with_v(self, ray: Ray, hit_record: HitRecord, draw: Fx) -> (Ray, Color)
        recommends
            self.refraction_index@ > 0,
            ray.direction.len_sq_v()@ != 0,
    {
        let one = Fx { raw: SCALE };
        let attenuation = Color { red: one, green: one, blue: one };
        let refraction_ratio = if hit_record.front_face {
            one.div_v(self.refraction_index)
        } else {
            self.refraction_index
        };
        let unit_vec_direction = ray.direction.unit_v();
        let cos_theta = unit_vec_direction.neg_v().dot_v(hit_record.normal).min_v(one);
        let sin_sq = one.sub_v(cos_theta.mul_v(cos_theta));
        let sin_theta = (if sin_sq@ < 0 {
            Fx { raw: 0 }
        } else {
            sin_sq
        }).sqrt_v();
        let cannot_refract = refraction_ratio.mul_v(sin_theta)@ > SCALE;
        if cannot_refract || reflectance_v(cos_theta, refraction_ratio)@ > draw@ {
            (Ray { origin: hit_record.point, direction: reflect_v(unit_vec_direction, hit_record.normal) }, attenuation)
        } else {
            (Ray { origin: hit_record.point, direction: refract_v(unit_vec_direction, hit_record.normal, refraction_ratio) }, attenuation)
        }
    }

    /// Dielectric scattering for a given uniform draw in `[0, 1)`: reflect on
    /// total internal reflection or when the draw falls below the Schlick
    /// reflectance, refract otherwise. Always scatters; attenuation is white.
    pub fn scatter_with(&self, ray: &Ray, hit_record: &HitRecord, draw: Fx) -> (res: (Ray, Color))
        requires
            self.refraction_index@ > 0,
            ray.direction.len_sq_v()@ != 0,
        ensures
            res == self.scatter_with_v(*ray, *hit_record, draw),
    {
        let one = Fx::one();
        let attenuation = Color::new(one, one, one);
        let refraction_ratio = if hit_record.front_face {
            one.div(self.refraction_index)
        } else {
            self.refraction_index
        };
        proof {
            lemma_ratio_nonneg(*self, hit_record.front_face);
        }
        let unit_vec_direction = ray.direction.unit_vector();
        let cos_theta = unit_vec_direction.neg().dot(&hit_record.normal).min(one);
        let sin_sq = one.sub(cos_theta.mul(cos_theta));
        let sin_theta = if sin_sq.raw < 0 {
            Fx::zero().sqrt()
        } else {
            sin_sq.sqrt()
        };
        let cannot_refract = refraction_ratio.mul(sin_theta).raw > SCALE;
        if cannot_refract || reflectance(cos_theta, refraction_ratio).raw > draw.raw {
            let reflected = reflect(&unit_vec_direction, &hit_record.normal);
            (Ray::new(hit_record.point, reflected), attenuation)
        } else {
            let direction = refract(&unit_vec_direction, &hit_record.normal, refraction_ratio);
            (Ray::new(hit_record.point, direction), attenuation)
        }
    }
}

impl Scatterable for Glass {
    /// The refraction index is positive.
    open spec fn wf_v(&self) -> bool {
        self.refraction_index@ > 0
    }

    /// Draw the reflect-or-refract coin and scatter: always `Some`, the
    /// attenuation is exactly white, and the result comes from the core
    /// applied to some admissible draw.
    fn scatter(&self, ray: &Ray, hit_record: &HitRecord, rng: &mut rand::rngs::StdRng) -> (res:
        Option<(Ray, Color)>)
        ensures
            (res is Some),
            (res matches Some(sc) ==> sc.1 == Color::white_v()),
            (exists|d: Fx|
                0 <= d@ < SCALE && res == Some(self.scatter_with_v(*ray, *hit_record, d))),
    {
        let draw = Fx { raw: crate::rng::rng_range(rng, 0, SCALE) };
        let r = Some(self.scatter_with(ray, hit_record, draw));
        proof {
            assert(0 <= draw@ < SCALE && r == Some(self.scatter_with_v(*ray, *hit_record, draw)));
        }
        r
    }
}

/// The refraction ratio a glass hit uses is never negative.
proof fn lemma_ratio_nonneg(g: Glass, front_face: bool)
    requires
        g.refraction_index@ > 0,
    ensures
        (if front_face {
            Fx { raw: SCALE }.div_v(g.refraction_index)
        } else {
            g.refraction_index
        })@ >= 0,
{
    if front_face {
        vstd::arithmetic::div_mod::lemma_div_pos_is_pos(
            mag((SCALE as int) * (SCALE as int)),
            mag(g.refraction_index@),
        );
    }
}

/// What `reflect` returns.
pub open spec fn reflect_v(v: Vec3, n: Vec3) -> Vec3 {
    v.sub_v(n.mul_scalar_v(Fx { raw: (2 * SCALE) as i64 }.mul_v(v.dot_v(n))))
}

/// Mirror reflection: `v - 2 (v . n) n`.
pub fn reflect(v: &Vec3, n: &Vec3) -> (r: Vec3)
    ensures
        r == reflect_v(*v, *n),
{
    let two = Fx::from_int(2);
    let k = two.mul(v.dot(n));
    v.sub(n.mul_scalar(k))
}

/// What `refract` returns.
pub open spec fn refract_v(v: Vec3, n: Vec3, eta_quotient: Fx) -> Vec3 {
    let one = Fx { raw: SCALE };
    let cos_theta = v.neg_v().dot_v(n).min_v(one);
    let r_out_perp = v.add_v(n.mul_scalar_v(cos_theta)).mul_scalar_v(eta_quotient);
    let inner = one.sub_v(r_out_perp.len_sq_v());
    let r_out_parallel = n.mul_scalar_v(inner.abs_v().sqrt_v().neg_v());
    r_out_parallel.add_v(r_out_perp)
}

/// Snell refraction of a unit direction `v` about the normal `n`:
/// `r_perp = eta (v + cos n)`, `r_par = -sqrt(|1 - |r_perp|^2|) n`.
pub fn refract(v: &Vec3, n: &Vec3, eta_quotient: Fx) -> (r: Vec3)
    ensures
        r == refract_v(*v, *n, eta_quotient),
{
    let one = Fx::one();
    let cos_theta = v.neg().dot(n).min(one);
    let r_out_perp = v.add(n.mul_scalar(cos_theta)).mul_scalar(eta_quotient);
    let inner = one.sub(r_out_perp.length_squared());
    let a = inner.abs();
    proof {
        lemma_abs_nonneg(inner);
    }
    let r_out_parallel = n.mul_scalar(a.sqrt().neg());
    r_out_parallel.add(r_out_perp)
}

/// A magnitude is never negative.
proof fn lemma_abs_nonneg(x: Fx)
    ensures
        x.abs_v()@ >= 0,
{
}

/// What `reflectance` returns.
pub open spec fn reflectance_v(cosine: Fx, ref_idx: Fx) -> Fx
    recommends
        fx_one().add_v(ref_idx)@ != 0,
{
    let one = Fx { raw: SCALE };
    let r0 = one.sub_v(ref_idx).div_v(one.add_v(ref_idx));
    let r0_squared = r0.mul_v(r0);
    let t = one.sub_v(cosine);
    r0_squared.add_v(one.sub_v(r0_squared).mul_v(pow5_v(t)))
}

/// The fifth power, multiplied out left to right.
pub open spec fn pow5_v(t: Fx) -> Fx {
    t.mul_v(t).mul_v(t).mul_v(t).mul_v(t)
}

/// Schlick's reflectance approximation, with `r0 = (1 - idx) / (1 + idx)`:
/// `r0^2 + (1 - r0^2)(1 - cos)^5`.
pub fn reflectance(cosine: Fx, ref_idx: Fx) -> (r: Fx)
    requires
        fx_one().add_v(ref_idx)@ != 0,
    ensures
        r == reflectance_v(cosine, ref_idx),
{
    let one = Fx::one();
    let r0 = one.sub(ref_idx).div(one.add(ref_idx));
    let r0_squared = r0.mul(r0);
    let t = one.sub(cosine);
    let t5 = t.mul(t).mul(t).mul(t).mul(t);
    r0_squared.add(one.sub(r0_squared).mul(t5))
}

/// At normal incidence the Fresnel term vanishes: the reflectance at
/// `cos = 1` is exactly `r0^2`.
pub proof fn lemma_reflectance_normal_incidence(ref_idx: Fx)
    requires
        fx_one().add_v(ref_idx)@ != 0,
    ensures
        ({
            let one = fx_one();
            let r0 = one.sub_v(ref_idx).div_v(one.add_v(ref_idx));
            reflectance_v(one, ref_idx) == r0.mul_v(r0)
        }),
{
    let one = Fx { raw: SCALE };
    let r0 = one.sub_v(ref_idx).div_v(one.add_v(ref_idx));
    let r0_squared = r0.mul_v(r0);
    let t = one.sub_v(one);
    assert(t@ == 0);
    lemma_mul_zero_left(t, t);
    lemma_mul_zero_left(t.mul_v(t), t);
    lemma_mul_zero_left(t.mul_v(t).mul_v(t), t);
    lemma_mul_zero_left(t.mul_v(t).mul_v(t).mul_v(t), t);
    lemma_mul_zero_right(one.sub_v(r0_squared), pow5_v(t));
    assert(r0_squared.add_v(Fx { raw: 0 }) == r0_squared);
}

/// Zero times anything is zero.
proof fn lemma_mul_zero_left(a: Fx, b: Fx)
    requires
        a@ == 0,
    ensures
        a.mul_v(b)@ == 0,
{
    assert(a@ * b@ == 0) by (nonlinear_arith)
        requires
            a@ == 0,
    ;
}

/// Anything times zero is zero.
proof fn lemma_mul_zero_right(a: Fx, b: Fx)
    requires
        b@ == 0,
    ensures
        a.mul_v(b)@ == 0,
{
    assert(a@ * b@ == 0) by (nonlinear_arith)
        requires
            b@ == 0,
    ;
}

} // verus!
