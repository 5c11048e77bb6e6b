//! Rays and the recursive path integrator.

use vstd::prelude::*;
use crate::color::Color;
use crate::fixed::{Fx, SCALE, fx_half, fx_one, tdiv};
use crate::hit_record::{HitRecord, hit_world_v, lemma_hit_scan_wf, world_wf};
use crate::interval::Interval;
use crate::material::{Scatterable, scatter_possible};
use crate::sphere::Sphere;
use crate::vector::Vec3;

verus! {

/// A half-line: an origin and a (not necessarily unit) direction.
#[derive(Clone, Copy, Debug, PartialEq, Eq, Structural)]
pub struct Ray {
    pub origin: Vec3,
    pub direction: Vec3,
}

impl Ray {
    /// The ray from `origin` toward `direction`.
    pub fn new(origin: Vec3, direction: Vec3) -> (r: Ray)
        ensures
            r == (Ray { origin, direction }),
    {
        Ray { origin, direction }
    }

    /// What `at` returns.
    pub open spec fn at_v(self, t: Fx) -> Vec3 {
        self.origin.add_v(self.direction.mul_scalar_v(t))
    }

    /// The point `origin + direction * t`.
    pub fn at(&self, t: Fx) -> (p: Vec3)
        ensures
            p == self.at_v(t),
    {
        self.origin().add(self.direction().mul_scalar(t))
    }

    /// The ray's origin.
    pub fn origin(&self) -> (o: Vec3)
        ensures
            o == self.origin,
    {
        self.origin.clone()
    }

    /// The ray's direction.
    pub fn direction(&self) -> (d: Vec3)
        ensures
            d == self.direction,
    {
        self.direction.clone()
    }

    /// The radiance a ray gathers: the nearest hit's material scatters it and
    /// tints the recursive estimate, an absorbed or depth-exhausted path is
    /// black, and a miss is the sky gradient.
    pub fn ray_color(
        ray: &Ray,
        intensity: Interval,
        world: &Vec<Sphere>,
        depth: u32,
        rng: &mut rand::rngs::StdRng,
    ) -> (c: Color)
        requires
            world_wf(world@),
            ray.direction.len_sq_v()@ != 0,
        ensures
            ray_color_rel(*ray, intensity, world@, depth, c),
            (hit_world_v(world@, *ray, intensity) is None) ==> c == background_v(*ray),
            ((hit_world_v(world@, *ray, intensity) is Some) && depth == 0) ==> c
                == Color::black_v(),
        decreases depth,
    {
        let hit = HitRecord::hit_world(world, ray, intensity);

        match hit {
            Some(hit_rec) => {
                if depth == 0 {
                    // The recursion terminates here: an exhausted path is black.
                    return Color::black();
                }
                proof {
                    lemma_hit_scan_wf(
                        world@,
                        *ray,
                        intensity.min,
                        intensity.max,
                        world@.len() as int,
                    );
                }
                let scattered = hit_rec.material.scatter(ray, &hit_rec, rng);

                match scattered {
                    Some((scattered_ray, albedo)) => {
                        if scattered_ray.direction.length_squared().is_zero() {
                            // A degenerate scattered ray cannot be traced on;
                            // treat it as absorbed instead of normalizing it.
                            proof {
                                lemma_rel_witness(
                                    *ray,
                                    intensity,
                                    world@,
                                    depth,
                                    hit_rec,
                                    scattered,
                                    Color::black_v(),
                                    Color::black_v(),
                                );
                            }
                            return Color::black();
                        }
                        let target_color = Ray::ray_color(
                            &scattered_ray,
                            intensity,
                            world,
                            depth - 1,
                            rng,
                        );
                        let c = albedo.mul(target_color);
                        proof {
                            lemma_rel_witness(
                                *ray,
                                intensity,
                                world@,
                                depth,
                                hit_rec,
                                scattered,
                                c,
                                target_color,
                            );
                        }
                        c
                    },
                    None => {
                        proof {
                            lemma_rel_witness(
                                *ray,
                                intensity,
                                world@,
                                depth,
                                hit_rec,
                                scattered,
                                Color::black_v(),
                                Color::black_v(),
                            );
                        }
                        Color::black()
                    },
                }
            },
            None => {
                let t = Fx::half().mul(ray.direction().unit_vector().y().add(Fx::one()));
                let omt = Fx::one().sub(t);
                let c = Color::new(
                    omt.mul(Fx::one()).add(t.mul(Fx::half())),
                    omt.mul(Fx::one()).add(t.mul(Fx::ratio(7, 10))),
                    omt.mul(Fx::one()).add(t.mul(Fx::one())),
                );
                proof {
                    crate::fixed::lemma_tdiv_eval(7 * (SCALE as int), 10, 45875, 2);
                }
                c
            },
        }
    }
}

/// What a missed ray returns: a vertical white-to-blue gradient, interpolated
/// by the normalized direction's second component.
pub open spec fn background_v(ray: Ray) -> Color
    recommends
        ray.direction.len_sq_v()@ != 0,
{
    let one = fx_one();
    let t = fx_half().mul_v(ray.direction.unit_v().y.add_v(one));
    let omt = one.sub_v(t);
    Color {
        red: omt.mul_v(one).add_v(t.mul_v(fx_half())),
        green: omt.mul_v(one).add_v(t.mul_v(Fx { raw: tdiv(7 * (SCALE as int), 10) as i64 })),
        blue: omt.mul_v(one).add_v(t.mul_v(one)),
    }
}

/// The colors a ray may gather, case for case: a miss is the background, an
/// exhausted or absorbed or degenerate path is black, and a scattered path is
/// the attenuation times a color the scattered ray may gather one bounce
/// deeper, for some scatter result the hit material can produce.
pub open spec fn ray_color_rel(
    ray: Ray,
    intensity: Interval,
    world: Seq<Sphere>,
    depth: u32,
    c: Color,
) -> bool
    decreases depth,
{
    match hit_world_v(world, ray, intensity) {
        None => c == background_v(ray),
        Some(h) => if depth == 0 {
            c == Color::black_v()
        } else {
            exists|res: Option<(Ray, Color)>|
                #![auto]
                scatter_possible(h.material, ray, h, res) && (match res {
                    None => c == Color::black_v(),
                    Some(sc) => if sc.0.direction.len_sq_v()@ == 0 {
                        c == Color::black_v()
                    } else {
                        exists|c2: Color|
                            #![auto]
                            ray_color_rel(sc.0, intensity, world, (depth - 1) as u32, c2) && c
                                == sc.1.mul_v(c2)
                    },
                })
        },
    }
}

/// The relation holds of a color assembled from one concrete scatter result:
/// the result itself is the witness.
#[verifier::rlimit(100)]
proof fn lemma_rel_witness(
    ray: Ray,
    intensity: Interval,
    world: Seq<Sphere>,
    depth: u32,
    h: HitRecord,
    res: Option<(Ray, Color)>,
    c: Color,
    c2: Color,
)
    requires
        depth > 0,
        hit_world_v(world, ray, intensity) == Some(h),
        scatter_possible(h.material, ray, h, res),
        (res is None) ==> c == Color::black_v(),
        res matches Some(sc) ==> (sc.0.direction.len_sq_v()@ == 0 ==> c == Color::black_v()),
        res matches Some(sc) ==> (sc.0.direction.len_sq_v()@ != 0 ==> ray_color_rel(
            sc.0,
            intensity,
            world,
            (depth - 1) as u32,
            c2,
        ) && c == sc.1.mul_v(c2)),
    ensures
        ray_color_rel(ray, intensity, world, depth, c),
{
    match res {
        None => {},
        Some(sc) => {
            if sc.0.direction.len_sq_v()@ != 0 {
                assert(ray_color_rel(sc.0, intensity, world, (depth - 1) as u32, c2) && c
                    == sc.1.mul_v(c2));
                assert(exists|cc: Color|
                    #![auto]
                    ray_color_rel(sc.0, intensity, world, (depth - 1) as u32, cc) && c
                        == sc.1.mul_v(cc));
            }
        },
    }
    assert(scatter_possible(h.material, ray, h, res) && (match res {
        None => c == Color::black_v(),
        Some(sc) => if sc.0.direction.len_sq_v()@ == 0 {
            c == Color::black_v()
        } else {
            exists|cc: Color|
                #![auto]
                ray_color_rel(sc.0, intensity, world, (depth - 1) as u32, cc) && c == sc.1.mul_v(
                    cc,
                )
        },
    }));
}

} // verus!
