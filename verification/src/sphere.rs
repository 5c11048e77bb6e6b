//! Spheres and ray/sphere intersection.

use vstd::prelude::*;
use crate::fixed::Fx;
use crate::hit_record::HitRecord;
use crate::material::{Material, Scatterable};
use crate::ray::Ray;

verus! {

/// Something a ray can strike between two parameter bounds.
pub trait Hittable {
    /// The primitive's construction-time invariant.
    spec fn wf_v(&self) -> bool;

    /// What `hit` returns.
    spec fn hit_v(&self, ray: Ray, t_min: Fx, t_max: Fx) -> Option<HitRecord>;

    /// The nearest intersection with parameter strictly inside `(t_min, t_max)`.
    fn hit(&self, r: &Ray, t_min: Fx, t_max: Fx) -> (res: Option<HitRecord>)
        requires
            self.wf_v(),
        ensures
            res == self.hit_v(*r, t_min, t_max),
    ;
}

/// A sphere with a positive radius and a material.
#[derive(Clone, Copy, Debug, PartialEq, Eq, Structural)]
pub struct Sphere {
    pub center: crate::vector::Vec3,
    pub radius: Fx,
    pub material: Material,
}

impl Sphere {
    /// A sphere; degenerate radii are rejected at construction.
    pub fn new(center: crate::vector::Vec3, radius: Fx, material: Material) -> (s: Sphere)
        requires
            radius@ > 0,
        ensures
            s == (Sphere { center, radius, material }),
    {
        Sphere { center, radius, material }
    }
}

impl Hittable for Sphere {
    /// The radius is positive and the material is well formed.
    open spec fn wf_v(&self) -> bool {
        self.radius@ > 0 && self.material.wf_v()
    }

    /// The quadratic for `|ray(t) - center|^2 == radius^2`, solved step for
    /// step in the fixed-point arithmetic; only the nearer root is tried.
    open spec fn hit_v(&self, ray: Ray, t_min: Fx, t_max: Fx) -> Option<HitRecord> {
        let oc = ray.origin.sub_v(self.center);
        let a = ray.direction.len_sq_v();
        let half_b = oc.dot_v(ray.direction);
        let c = oc.len_sq_v().sub_v(self.radius.mul_v(self.radius));
        let discriminant = half_b.mul_v(half_b).sub_v(a.mul_v(c));
        if discriminant@ > 0 && a@ != 0 {
            let temp = half_b.neg_v().sub_v(discriminant.sqrt_v()).div_v(a);
            if temp@ < t_max@ && temp@ > t_min@ {
                let p = ray.at_v(temp);
                let normal = p.sub_v(self.center).div_scalar_v(self.radius);
                let front_face = ray.direction.dot_v(normal)@ < 0;
                Some(
                    HitRecord {
                        t: temp,
                        point: p,
                        normal: if front_face {
                            normal
                        } else {
                            normal.neg_v()
                        },
                        front_face,
                        material: self.material,
                    },
                )
            } else {
                None
            }
        } else {
            None
        }
    }

    /// Solve the quadratic; a zero quadratic coefficient (a degenerate ray
    /// direction) is treated as a miss rather than divided by.
    fn hit(&self, ray: &Ray, t_min: Fx, t_max: Fx) -> (res: Option<HitRecord>) {
        let oc = ray.origin.sub(self.center);
        let a = ray.direction.length_squared();
        let half_b = oc.dot(&ray.direction);
        let c = oc.length_squared().sub(self.radius.mul(self.radius));
        let discriminant = half_b.mul(half_b).sub(a.mul(c));

        if discriminant.raw > 0 && a.raw != 0 {
            let root = discriminant.sqrt();
            let temp = half_b.neg().sub(root).div(a);

            if temp.lt(t_max) && t_min.lt(temp) {
                let p = ray.at(temp);
                let normal = p.sub(self.center).div_scalar(self.radius);
                let front_face = ray.direction().dot(&normal).raw < 0;

                return Some(
                    HitRecord {
                        t: temp,
                        point: p,
                        normal: if front_face {
                            normal
                        } else {
                            normal.neg()
                        },
                        front_face,
                        material: self.material,
                    },
                );
            }
        }

        None
    }
}

} // verus!
