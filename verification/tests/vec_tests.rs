use eerdekens_bot::vec3::Vec3;
use eerdekens_bot::fx::SCALE;

fn fx(v: i64) -> i64 {
    v * SCALE
}

#[test]
fn test_addition() {
    let a = Vec3::new(fx(1), fx(2), fx(3));
    let b = Vec3::new(fx(4), fx(5), fx(6));
    let result = a.add(b);
    assert_eq!(result, Vec3::new(fx(5), fx(7), fx(9)));
}

#[test]
fn test_subtraction() {
    let a = Vec3::new(fx(5), fx(7), fx(9));
    let b = Vec3::new(fx(1), fx(2), fx(3));
    let result = a.sub(b);
    assert_eq!(result, Vec3::new(fx(4), fx(5), fx(6)));
}

#[test]
fn test_vector_negation() {
    let a = Vec3::new(fx(1), fx(-2), fx(3));
    let result = a.neg();
    assert_eq!(result, Vec3::new(fx(-1), fx(2), fx(-3)));
}

#[test]
fn test_dot_product() {
    let a = Vec3::new(fx(1), fx(2), fx(3));
    let b = Vec3::new(fx(4), fx(5), fx(6));
    let result = a.dot(&b);
    assert_eq!(result, fx(32));
}

#[test]
fn test_cross_product() {
    let a = Vec3::new(fx(1), fx(2), fx(3));
    let b = Vec3::new(fx(4), fx(5), fx(6));
    let result = a.cross(&b);
    assert_eq!(result, Vec3::new(fx(-3), fx(6), fx(-3)));
}

#[test]
fn test_length_squared() {
    let a = Vec3::new(fx(1), fx(2), fx(3));
    let result = a.length_squared();
    assert_eq!(result, fx(14));
}

#[test]
fn test_length() {
    let a = Vec3::new(fx(1), fx(2), fx(3));
    let result = a.length();
    // The fixed-point square root of fourteen.
    assert_eq!(result, 245213);
}

#[test]
fn test_multiplication_by_scalar() {
    let a = Vec3::new(fx(1), fx(2), fx(3));
    let scalar = fx(2);
    let result = a.scale(scalar);
    assert_eq!(result, Vec3::new(fx(2), fx(4), fx(6)));
}

#[test]
fn test_division_by_scalar() {
    let a = Vec3::new(fx(2), fx(4), fx(6));
    let scalar = fx(2);
    let result = a.div(scalar);
    assert_eq!(result, Vec3::new(fx(1), fx(2), fx(3)));
}

#[test]
fn test_normalize() {
    let a = Vec3::new(fx(1), fx(1), fx(1));
    let result = a.normalize();
    // Each component is one over the fixed-point square root of three.
    assert_eq!(result, Vec3::new(37837, 37837, 37837));
}

#[test]
fn test_normalize_gives_unit_norm() {
    let a = Vec3::new(fx(1), fx(2), fx(3));
    let result = a.normalize();
    assert!((result.length() - SCALE).abs() <= 2);
}

#[test]
fn test_cross_product_orthogonality() {
    let a = Vec3::new(fx(1), 0, 0);
    let b = Vec3::new(0, fx(1), 0);
    let result = a.cross(&b);
    assert_eq!(result, Vec3::new(0, 0, fx(1)));
    let dot_with_a = result.dot(&a);
    let dot_with_b = result.dot(&b);
    assert!(dot_with_a == 0 && dot_with_b == 0);
}

#[test]
fn test_cross_product_anticommutativity() {
    let a = Vec3::new(fx(1), fx(2), fx(3));
    let b = Vec3::new(fx(4), fx(5), fx(6));
    let result_ab = a.cross(&b);
    let result_ba = b.cross(&a);
    assert_eq!(result_ab, result_ba.neg());
}

#[test]
fn test_normalize_unit_vector_is_identity() {
    // A vector of length exactly one comes back unchanged.
    let a = Vec3::new(fx(1), 0, 0);
    let result = a.normalize();
    assert_eq!(result, a);
    assert_eq!(result.length(), SCALE);
}

#[test]
fn test_close_to_detects_degenerate_difference() {
    let a = Vec3::new(5, -5, 3);
    assert!(a.close_to(Vec3::zeros()));
    let b = Vec3::new(fx(1), 0, 0);
    assert!(!b.close_to(Vec3::zeros()));
}

#[test]
fn test_random_vectors_are_inside_their_bounds() {
    let mut rng = eerdekens_bot::rng::RandomSource::new(7);
    for _ in 0..32 {
        let v = Vec3::random_in_bounds(&mut rng, fx(-1), fx(1));
        assert!(-fx(1) <= v.x() && v.x() < fx(1));
        assert!(-fx(1) <= v.y() && v.y() < fx(1));
        assert!(-fx(1) <= v.z() && v.z() < fx(1));
        let b = Vec3::random_in_unit_ball(&mut rng);
        assert!(b.length_squared() < SCALE);
        let d = Vec3::random_in_unit_disk(&mut rng);
        assert!(d.length_squared() < SCALE && d.z() == 0);
    }
}
