use rand::SeedableRng;
use rt::color::Color;
use rt::fixed::{Fx, RAW_LIMIT, SCALE};
use rt::hit_record::HitRecord;
use rt::interval::Interval;
use rt::material::{Glass, Lambertian, Material, Metal, Scatterable, reflect, reflectance, refract};
use rt::ray::Ray;
use rt::sphere::{Hittable, Sphere};
use rt::vector::Vec3;

fn fx(n: i64, d: i64) -> Fx {
    Fx::ratio(n, d)
}

fn fi(i: i64) -> Fx {
    Fx::from_int(i)
}

fn grey() -> Material {
    Material::Lambertian(Lambertian::new(Color::new(fx(1, 2), fx(1, 2), fx(1, 2))))
}

fn zero_vec() -> Vec3 {
    Vec3::new(Fx::zero(), Fx::zero(), Fx::zero())
}

fn full_range() -> Fx {
    Fx { raw: RAW_LIMIT }
}

#[test]
fn test_hit() {
    let center = Vec3::new(fi(0), fi(0), fi(0));
    let sphere = Sphere::new(center, fi(1), grey());

    let ray = Ray::new(Vec3::new(fi(0), fi(0), fi(-5)), Vec3::new(fi(0), fi(0), fi(1)));
    let hit = sphere.hit(&ray, fi(0), full_range());
    assert_eq!(hit.unwrap().t, fi(4));
}

#[test]
fn sphere_hit_record_geometry() {
    let sphere = Sphere::new(Vec3::new(fi(0), fi(0), fi(0)), fi(1), grey());
    let ray = Ray::new(Vec3::new(fi(0), fi(0), fi(-5)), Vec3::new(fi(0), fi(0), fi(1)));

    let hit = sphere.hit(&ray, fi(0), full_range()).unwrap();
    // The hit point is (0, 0, -1) and the stored normal opposes the ray.
    assert_eq!(hit.point, Vec3::new(fi(0), fi(0), fi(-1)));
    assert_eq!(hit.normal, Vec3::new(fi(0), fi(0), fi(-1)));
    assert!(hit.front_face);
}

#[test]
fn sphere_miss_returns_none() {
    let sphere = Sphere::new(Vec3::new(fi(10), fi(0), fi(0)), fi(1), grey());
    let ray = Ray::new(Vec3::new(fi(0), fi(0), fi(-5)), Vec3::new(fi(0), fi(0), fi(1)));
    assert!(sphere.hit(&ray, fi(0), full_range()).is_none());
}

#[test]
fn hit_world_takes_the_nearest_sphere_and_first_on_ties() {
    let near_mat = Material::Metallic(Metal::new(Color::new(fi(1), fi(0), fi(0)), Fx::zero()));
    let far_mat = grey();
    let world = vec![
        Sphere::new(Vec3::new(fi(0), fi(0), fi(-8)), fi(1), far_mat),
        Sphere::new(Vec3::new(fi(0), fi(0), fi(-3)), fi(1), near_mat),
    ];
    let ray = Ray::new(zero_vec(), Vec3::new(fi(0), fi(0), fi(-1)));
    let intensity = Interval::new(fx(1, 1000), full_range());

    let hit = HitRecord::hit_world(&world, &ray, intensity).unwrap();
    assert_eq!(hit.t, fi(2));
    assert_eq!(hit.material, near_mat);

    // Two identical spheres: the interval narrows strictly, so the first stays.
    let twin_a = Sphere::new(Vec3::new(fi(0), fi(0), fi(-3)), fi(1), near_mat);
    let twin_b = Sphere::new(Vec3::new(fi(0), fi(0), fi(-3)), fi(1), far_mat);
    let twins = vec![twin_a, twin_b];
    let hit2 = HitRecord::hit_world(&twins, &ray, intensity).unwrap();
    assert_eq!(hit2.material, near_mat);
}

#[test]
fn empty_scene_returns_the_background_gradient() {
    let mut rng = rand::rngs::StdRng::seed_from_u64(1);
    let world: Vec<Sphere> = Vec::new();
    let intensity = Interval::new(fx(1, 1000), full_range());
    let ray = Ray::new(zero_vec(), Vec3::new(fi(0), fi(0), fi(1)));

    // Exact gradient for a direction whose unit vector has y == 0:
    // t = 0.5, so (0.75, 0.85, 1.0) in the fixed-point arithmetic.
    let c = Ray::ray_color(&ray, intensity, &world, 5, &mut rng);
    assert_eq!(c.red.raw(), 49152);
    assert_eq!(c.green.raw(), 55705);
    assert_eq!(c.blue.raw(), 65536);

    // No recursion is consumed on a miss: depth zero gives the same color.
    let c0 = Ray::ray_color(&ray, intensity, &world, 0, &mut rng);
    assert_eq!(c, c0);
}

#[test]
fn reflectance_at_normal_incidence_is_r0_squared() {
    let idx = fx(3, 2);
    let one = Fx::one();
    let r0 = one.sub(idx).div(one.add(idx));
    let expected = r0.mul(r0);

    let r = reflectance(one, idx);
    assert_eq!(r, expected);
    assert_eq!(r.raw(), 2621);
}

#[test]
fn diffuse_scatter_falls_back_to_the_normal() {
    let lam = Lambertian::new(Color::new(fx(1, 2), fx(1, 2), fx(1, 2)));
    let normal = Vec3::new(fi(0), fi(0), fi(1));
    let hit = HitRecord::new(fi(1), zero_vec(), normal, true, Material::Lambertian(lam));

    // A sampled direction exactly opposite the normal cancels it.
    let sample = Vec3::new(fi(0), fi(0), fi(-1));
    let (scattered, attenuation) = lam.scatter_with(&hit, sample);

    assert_eq!(scattered.direction, normal);
    assert_eq!(scattered.origin, hit.point);
    assert_eq!(attenuation, lam.albedo);
    // The fallback ray is sound: unit length, nothing degenerate.
    assert_eq!(scattered.direction.length_squared().raw(), SCALE);
}

#[test]
fn metal_reflects_or_absorbs() {
    let metal = Metal::new(Color::new(fx(1, 2), fx(1, 2), fx(1, 2)), Fx::zero());
    let normal = Vec3::new(fi(0), fi(0), fi(1));
    let hit = HitRecord::new(fi(1), zero_vec(), normal, true, Material::Metallic(metal));

    // Incoming straight against the normal reflects straight back out.
    let incoming = Ray::new(Vec3::new(fi(0), fi(0), fi(1)), Vec3::new(fi(0), fi(0), fi(-1)));
    let (scattered, attenuation) = metal.scatter_with(&incoming, &hit, zero_vec()).unwrap();
    assert_eq!(scattered.direction, Vec3::new(fi(0), fi(0), fi(1)));
    assert_eq!(attenuation, metal.albedo);

    // A ray arriving from behind the surface reflects inward and is absorbed.
    let inside = Ray::new(zero_vec(), Vec3::new(fi(0), fi(0), fi(1)));
    assert!(metal.scatter_with(&inside, &hit, zero_vec()).is_none());
}

#[test]
fn reflect_mirrors_about_the_normal() {
    let v = Vec3::new(fi(1), fi(-1), fi(0));
    let n = Vec3::new(fi(0), fi(1), fi(0));
    assert_eq!(reflect(&v, &n), Vec3::new(fi(1), fi(1), fi(0)));
}

#[test]
fn refraction_with_unit_ratio_passes_straight_through() {
    let v = Vec3::new(fi(0), fi(0), fi(-1));
    let n = Vec3::new(fi(0), fi(0), fi(1));
    let out = refract(&v, &n, Fx::one());
    assert_eq!(out, Vec3::new(fi(0), fi(0), fi(-1)));
}

#[test]
fn glass_refracts_head_on_and_keeps_white_attenuation() {
    let glass = Glass::new(fx(3, 2));
    let normal = Vec3::new(fi(0), fi(0), fi(1));
    let hit = HitRecord::new(fi(1), zero_vec(), normal, true, Material::Glass(glass));
    let incoming = Ray::new(Vec3::new(fi(0), fi(0), fi(1)), Vec3::new(fi(0), fi(0), fi(-1)));

    // A draw above the head-on reflectance (2621/65536) forces refraction.
    let (scattered, attenuation) = glass.scatter_with(&incoming, &hit, Fx::half());
    assert_eq!(attenuation, Color::new(Fx::one(), Fx::one(), Fx::one()));
    assert_eq!(scattered.direction, Vec3::new(fi(0), fi(0), fi(-1)));

    // A draw below it forces reflection.
    let (reflected, _) = glass.scatter_with(&incoming, &hit, Fx::from_raw(100));
    assert_eq!(reflected.direction, Vec3::new(fi(0), fi(0), fi(1)));
}

#[test]
fn material_dispatch_matches_the_variant() {
    let mut rng = rand::rngs::StdRng::seed_from_u64(3);
    let lam = Lambertian::new(Color::new(fx(1, 4), fx(1, 4), fx(1, 4)));
    let mat = Material::Lambertian(lam);
    let normal = Vec3::new(fi(0), fi(0), fi(1));
    let hit = HitRecord::new(fi(1), Vec3::new(fi(0), fi(0), fi(-2)), normal, true, mat);
    let ray = Ray::new(zero_vec(), Vec3::new(fi(0), fi(0), fi(-1)));

    let (scattered, attenuation) = mat.scatter(&ray, &hit, &mut rng).unwrap();
    assert_eq!(scattered.origin, hit.point);
    assert_eq!(attenuation, lam.albedo);
}

#[test]
fn interval_contains_surrounds_clamp_and_sample() {
    let iv = Interval::new(fi(1), fi(3));
    assert!(iv.contains(fi(1)));
    assert!(iv.contains(fi(3)));
    assert!(!iv.contains(fi(4)));
    assert!(!iv.surrounds(fi(1)));
    assert!(iv.surrounds(fi(2)));

    assert_eq!(iv.clamp(fi(0)), fi(1));
    assert_eq!(iv.clamp(fi(5)), fi(3));
    assert_eq!(iv.clamp(fi(2)), fi(2));

    // A sum of 32 samples of full intensity averages back to exactly 1.
    let display = Interval::new(fx(1, 1000), full_range());
    assert_eq!(display.sample(fi(32), 32), Fx::one());
    // An underflowing channel is lifted to the lower clamp, never to black.
    assert_eq!(display.sample(Fx::zero(), 32), fx(1, 1000));
}
