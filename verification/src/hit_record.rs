//! Hit records and the linear nearest-hit scan over a scene.

use vstd::prelude::*;
use crate::fixed::Fx;
use crate::interval::Interval;
use crate::material::{Material, Scatterable};
use crate::ray::Ray;
use crate::sphere::{Hittable, Sphere};
use crate::vector::Vec3;

verus! {

/// The geometric and material result of the nearest ray/scene intersection.
#[derive(Clone, Copy, Debug, PartialEq, Eq, Structural)]
pub struct HitRecord {
    pub point: Vec3,
    pub normal: Vec3,
    pub material: Material,
    pub t: Fx,
    pub front_face: bool,
}

/// The state of the nearest-hit scan after the first `i` spheres: the
/// narrowed upper bound and the nearest record so far.
pub open spec fn hit_scan(
    world: Seq<Sphere>,
    ray: Ray,
    t_min: Fx,
    init_max: Fx,
    i: int,
) -> (Fx, Option<HitRecord>)
    decreases i,
{
    if i <= 0 {
        (init_max, None::<HitRecord>)
    } else {
        let prev = hit_scan(world, ray, t_min, init_max, i - 1);
        match world[i - 1].hit_v(ray, t_min, prev.0) {
            Some(h) => (h.t, Some(h)),
            None => prev,
        }
    }
}

/// What `hit_world` returns: the scan over the whole scene.
pub open spec fn hit_world_v(world: Seq<Sphere>, ray: Ray, intensity: Interval) -> Option<
    HitRecord,
> {
    hit_scan(world, ray, intensity.min, intensity.max, world.len() as int).1
}

/// Every sphere of the scene is well formed.
pub open spec fn world_wf(world: Seq<Sphere>) -> bool {
    forall|i: int| 0 <= i < world.len() ==> #[trigger] world[i].wf_v()
}

impl HitRecord {
    /// A record from its parts.
    pub fn new(t: Fx, point: Vec3, normal: Vec3, front_face: bool, material: Material) -> (h:
        HitRecord)
        ensures
            h == (HitRecord { t, point, normal, front_face, material }),
    {
        HitRecord { t, point, normal, front_face, material }
    }

    /// The nearest hit over all spheres: a linear scan that narrows the upper
    /// search bound to each accepted hit's parameter.
    pub fn hit_world(world: &Vec<Sphere>, ray: &Ray, intensity: Interval) -> (res: Option<
        HitRecord,
    >)
        requires
            world_wf(world@),
        ensures
            res == hit_world_v(world@, *ray, intensity),
    {
        let mut closest = intensity.max;
        let mut hit_record: Option<HitRecord> = None;

        let mut i: usize = 0;
        while i < world.len()
            invariant
                world_wf(world@),
                i <= world@.len(),
                (closest, hit_record) == hit_scan(world@, *ray, intensity.min, intensity.max, i as int),
            decreases world@.len() - i,
        {
            let sphere = &world[i];
            if let Some(hit) = sphere.hit(ray, intensity.min, closest) {
                closest = hit.t;
                hit_record = Some(hit);
            }
            i = i + 1;
        }

        hit_record
    }
}

impl Default for HitRecord {
    /// A placeholder record at the origin with a diffuse black material.
    fn default() -> (h: HitRecord)
        ensures
            h.t@ == 0,
            h.front_face == true,
    {
        HitRecord {
            point: Vec3 { x: Fx { raw: 0 }, y: Fx { raw: 0 }, z: Fx { raw: 0 } },
            normal: Vec3 { x: Fx { raw: 0 }, y: Fx { raw: 0 }, z: Fx { raw: 0 } },
            material: Material::Lambertian(
                crate::material::Lambertian { albedo: crate::color::Color::black() },
            ),
            t: Fx { raw: 0 },
            front_face: true,
        }
    }
}

/// A record the scan hands out carries a well-formed material.
pub proof fn lemma_hit_scan_wf(world: Seq<Sphere>, ray: Ray, t_min: Fx, init_max: Fx, i: int)
    requires
        world_wf(world),
        0 <= i <= world.len(),
    ensures
        ({
            let (closest, res) = hit_scan(world, ray, t_min, init_max, i);
            match res {
                Some(h) => h.material.wf_v(),
                None => true,
            }
        }),
    decreases i,
{
    if i > 0 {
        lemma_hit_scan_wf(world, ray, t_min, init_max, i - 1);
        let prev = hit_scan(world, ray, t_min, init_max, i - 1);
        match world[i - 1].hit_v(ray, t_min, prev.0) {
            Some(h) => {
                assert(world[i - 1].wf_v());
            },
            None => {},
        }
    }
}

/// The scan narrows: the upper bound never grows, and a record it hands back
/// names the narrowed bound itself, a parameter strictly inside the interval
/// that the search began with.
pub proof fn lemma_hit_scan_in_interval(world: Seq<Sphere>, ray: Ray, t_min: Fx, init_max: Fx, i: int)
    requires
        0 <= i <= world.len(),
    ensures
        ({
            let (closest, res) = hit_scan(world, ray, t_min, init_max, i);
            closest@ <= init_max@ && (match res {
                Some(h) => t_min@ < h.t@ && h.t@ < init_max@ && h.t == closest,
                None => closest == init_max,
            })
        }),
    decreases i,
{
    if i > 0 {
        lemma_hit_scan_in_interval(world, ray, t_min, init_max, i - 1);
    }
}

/// A ray fired into an empty scene misses: the scan over no spheres returns
/// nothing, so the integrator answers with the background alone.
pub proof fn lemma_empty_world_misses(ray: Ray, intensity: Interval)
    ensures
        hit_world_v(Seq::<Sphere>::empty(), ray, intensity) is None,
{
}

} // verus!
