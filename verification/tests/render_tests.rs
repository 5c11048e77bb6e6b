use rand::SeedableRng;
use rt::camera::Camera;
use rt::color::Color;
use rt::fixed::Fx;
use rt::material::{Lambertian, Material};
use rt::render::Render;
use rt::sphere::Sphere;
use rt::vector::Vec3;

fn fx(n: i64, d: i64) -> Fx {
    Fx::ratio(n, d)
}

fn fi(i: i64) -> Fx {
    Fx::from_int(i)
}

/// One matte sphere in front of the camera over a large ground sphere.
fn small_scene() -> Vec<Sphere> {
    let matte = Material::Lambertian(Lambertian::new(Color::new(fx(1, 2), fx(1, 2), fx(1, 2))));
    vec![
        Sphere::new(Vec3::new(fi(0), fi(0), fi(-2)), fx(1, 2), matte),
        Sphere::new(Vec3::new(fi(0), fx(-201, 2), fi(-3)), fi(100), matte),
    ]
}

#[test]
fn camera_geometry_matches_the_fixed_recipe() {
    let camera = Camera::new(20, 5);
    assert_eq!(camera.image_width, 20);
    // Height from the 16:9 ratio: floor(20 * 9 / 16) == 11.
    assert_eq!(camera.image_height, 11);
    assert_eq!(camera.center, Vec3::new(fi(0), fi(0), fi(0)));
    // The pixel grid sits one focal length in front of the center.
    assert_eq!(camera.pixel00_loc.z(), fi(-1));
    // The viewport width uses the truncated integer ratio height/width,
    // which is zero here, so the horizontal delta collapses.
    assert_eq!(camera.pixel_vec_u.x().raw(), 0);
    // The vertical delta is -2/11 of a world unit.
    assert_eq!(camera.pixel_vec_v.y().raw(), -(2 * 65536 * 65536_i64) / (11 * 65536));
    assert_eq!(camera.max_depth, 5);
}

#[test]
fn camera_height_has_a_floor_of_one() {
    let camera = Camera::new(1, 3);
    assert_eq!(camera.image_height, 1);
}

#[test]
fn render_emits_header_and_one_line_per_pixel() {
    let camera = Camera::new(20, 10);
    let world = small_scene();
    let mut rng = rand::rngs::StdRng::seed_from_u64(9);

    let out = Render::render(&camera, &world, 1, &mut rng);

    assert_eq!(out.len(), 3 + 11 * 20);
    assert_eq!(out[0], "P3");
    assert_eq!(out[1], "11 20");
    assert_eq!(out[2], "10");
    for line in &out[3..] {
        let fields: Vec<&str> = line.split(' ').collect();
        assert_eq!(fields.len(), 3);
        for f in fields {
            let v: i64 = f.parse().unwrap();
            assert!((0..=255).contains(&v), "channel {} out of range", v);
        }
    }
}

#[test]
fn render_of_the_smallest_image_is_four_lines() {
    let camera = Camera::new(1, 2);
    let world: Vec<Sphere> = Vec::new();
    let mut rng = rand::rngs::StdRng::seed_from_u64(2);

    let out = Render::render(&camera, &world, 1, &mut rng);
    assert_eq!(out.len(), 4);
    assert_eq!(out[0], "P3");
    assert_eq!(out[1], "1 1");
    assert_eq!(out[2], "0");

    // The background's blue channel is exactly 1.0 for every direction, so
    // the quantizer must turn it into exactly 255.
    let fields: Vec<&str> = out[3].split(' ').collect();
    assert_eq!(fields[2], "255");
}

#[test]
fn render_is_deterministic_for_a_fixed_seed() {
    let camera = Camera::new(20, 10);
    let world = small_scene();

    let mut rng1 = rand::rngs::StdRng::seed_from_u64(42);
    let first = Render::render(&camera, &world, 1, &mut rng1);

    let mut rng2 = rand::rngs::StdRng::seed_from_u64(42);
    let second = Render::render(&camera, &world, 1, &mut rng2);

    assert_eq!(first, second);
}

#[test]
fn render_depends_on_the_random_stream() {
    let camera = Camera::new(20, 10);
    let world = small_scene();

    let mut rng1 = rand::rngs::StdRng::seed_from_u64(1);
    let first = Render::render(&camera, &world, 1, &mut rng1);

    let mut rng2 = rand::rngs::StdRng::seed_from_u64(2);
    let second = Render::render(&camera, &world, 1, &mut rng2);

    assert_ne!(first, second);
}
