use rand::SeedableRng;
use rt::fixed::Fx;
use rt::ray::Ray;
use rt::vector::Vec3;

/// The fixed-point scalar for the fraction n / d.
fn fx(n: i64, d: i64) -> Fx {
    Fx::ratio(n, d)
}

/// Whole-number scalar.
fn fi(i: i64) -> Fx {
    Fx::from_int(i)
}

/// The two scalars agree within `tol` raw steps (one step is 1/65536).
fn near(a: Fx, b: Fx, tol: i64) {
    let d: i64 = a.raw() - b.raw();
    assert!(-tol <= d && d <= tol, "raw {} vs {}", a.raw(), b.raw());
}

#[test]
fn test_new_vecotr() {
    let test_vec = Vec3 { x: fx(11, 100), y: fx(22, 100), z: fx(33, 100) };

    assert_eq!(test_vec.x(), fx(11, 100));
    assert_eq!(test_vec.y(), fx(22, 100));
    assert_eq!(test_vec.z(), fx(33, 100));

    let test_vec2 = Vec3::new(fx(11, 100), fx(22, 100), fx(33, 100));

    assert_eq!(test_vec2.x(), test_vec.x());
    assert_eq!(test_vec2.y(), test_vec.y());
    assert_eq!(test_vec2.z(), test_vec.z());
}

#[test]
fn test_add_vector() {
    let test_vec = Vec3 { x: fx(11, 100), y: fx(22, 100), z: fx(33, 100) };
    let test_vec2 = Vec3::new(fx(12, 100), fx(23, 100), fx(34, 100));

    let addition_vector = test_vec.add(test_vec2);

    near(addition_vector.x(), fx(23, 100), 2);
    near(addition_vector.y(), fx(45, 100), 2);
    near(addition_vector.z(), fx(67, 100), 2);
}

#[test]
fn test_sub_vector() {
    let test_vec = Vec3 { x: fx(11, 100), y: fx(22, 100), z: fx(33, 100) };
    let test_vec2 = Vec3::new(fx(12, 100), fx(23, 100), fx(34, 100));

    let sub_vector = test_vec2.sub(test_vec);

    near(sub_vector.x(), fx(1, 100), 2);
    near(sub_vector.y(), fx(1, 100), 2);
    near(sub_vector.z(), fx(1, 100), 2);
}

#[test]
fn test_mul_vector() {
    let test_vec = Vec3 { x: fx(11, 100), y: fx(22, 100), z: fx(33, 100) };
    let test_vec2 = Vec3::new(fi(2), fi(3), fi(4));

    let mul_vector = test_vec2.mul(test_vec);

    near(mul_vector.x(), fx(22, 100), 4);
    near(mul_vector.y(), fx(66, 100), 4);
    near(mul_vector.z(), fx(132, 100), 4);
}

#[test]
fn test_mul_vector_by_num() {
    let test_vec = Vec3 { x: fx(11, 100), y: fx(22, 100), z: fx(33, 100) };

    let mul_vector = test_vec.mul_scalar(fi(2));

    near(mul_vector.x(), fx(22, 100), 2);
    near(mul_vector.y(), fx(44, 100), 2);
    near(mul_vector.z(), fx(66, 100), 2);
}

#[test]
fn test_div_vector() {
    let test_vec = Vec3 { x: fx(22, 100), y: fx(66, 100), z: fx(88, 100) };
    let test_vec2 = Vec3::new(fi(1), fi(3), fi(4));

    let div_vector = test_vec.div(test_vec2);
    let div_vector_by_num = test_vec.div_scalar(fi(2));

    near(div_vector.x(), fx(22, 100), 2);
    near(div_vector.y(), fx(22, 100), 2);
    near(div_vector.z(), fx(22, 100), 2);
    near(div_vector_by_num.x(), fx(11, 100), 2);
    near(div_vector_by_num.y(), fx(33, 100), 2);
    near(div_vector_by_num.z(), fx(44, 100), 2);
}

#[test]
fn test_vector_length() {
    let test_vec = Vec3::new(fi(1), fi(-2), fi(3));
    let test_vec2 = Vec3::new(fi(1), fi(-2), fi(3));

    let test_vec_length = test_vec.length();
    let test_vec_length2 = test_vec2.length();

    near(test_vec_length, fx(331662479036, 100000000000), 65536);
    assert_eq!(test_vec_length, test_vec_length2);

    println!("Value of vector test length ----> {}", test_vec_length.raw());
}

#[test]
fn test_vector_cross() {
    let test_vec = Vec3::new(fi(2), fi(4), fi(6));
    let test_vec2 = Vec3::new(fi(3), fi(2), fi(1));

    let coross_vector = test_vec.cross(&test_vec2);

    assert_eq!(coross_vector.x(), fi(-8));
    assert_eq!(coross_vector.y(), fi(16));
    assert_eq!(coross_vector.z(), fi(-8));
}

#[test]
fn test_unit_vecotr() {
    let test_vec = Vec3::new(fi(2), fi(4), fi(6));

    let unit_vector = test_vec.unit_vector();

    near(unit_vector.x(), fx(26726124191, 100000000000), 16);
}

#[test]
fn test_new_ray() {
    let test_ray = Ray::new(Vec3::new(fi(2), fi(4), fi(6)), Vec3::new(fi(1), fi(2), fi(3)));

    assert_eq!(test_ray.origin().x(), fi(2));
}

#[test]
fn test_ray_at() {
    let test_ray = Ray::new(Vec3::new(fi(2), fi(4), fi(6)), Vec3::new(fi(1), fi(2), fi(3)));

    let new_origin = test_ray.at(fi(2));

    assert_eq!(new_origin.x(), fi(4));
    assert_eq!(new_origin.y(), fi(8));
    assert_eq!(new_origin.z(), fi(12));
}

#[test]
fn cross_is_anti_commutative() {
    let a = Vec3::new(fi(1), fx(7, 3), fi(-2));
    let b = Vec3::new(fx(-5, 4), fi(6), fx(1, 9));

    assert_eq!(a.cross(&b), b.cross(&a).neg());
}

#[test]
fn unit_vector_has_length_one() {
    for (x, y, z) in [(3i64, 4, 12), (-7, 2, 1), (1, 0, 0), (100, -250, 41)] {
        let v = Vec3::new(fi(x), fi(y), fi(z));
        let len = v.unit_vector().length();
        near(len, fi(1), 64);
    }
}

#[test]
fn random_unit_vector_has_length_one() {
    let mut rng = rand::rngs::StdRng::seed_from_u64(11);
    for _ in 0..50 {
        let v = Vec3::random_unit_vec3(&mut rng);
        near(v.length(), fi(1), 64);
    }
}

#[test]
fn hemisphere_sample_faces_the_normal() {
    let mut rng = rand::rngs::StdRng::seed_from_u64(5);
    let normal = Vec3::new(fx(1, 2), fx(-1, 3), fx(4, 5));
    for _ in 0..50 {
        let v = Vec3::random_vec3_on_hemisphere(&normal, &mut rng);
        assert!(v.dot(&normal).raw() >= 0);
    }
}

#[test]
fn add_scalar_shifts_every_component() {
    let v = Vec3::new(fi(1), fi(2), fi(3));
    let shifted = v.add_scalar(fx(1, 2));
    near(shifted.x(), fx(3, 2), 2);
    near(shifted.y(), fx(5, 2), 2);
    near(shifted.z(), fx(7, 2), 2);
}

#[test]
fn near_zero_detects_only_the_zero_vector() {
    assert!(Vec3::new(Fx::zero(), Fx::zero(), Fx::zero()).near_zero());
    assert!(!Vec3::new(Fx::from_raw(1), Fx::zero(), Fx::zero()).near_zero());
    assert!(!Vec3::new(fi(1), fi(2), fi(3)).near_zero());
}
