use rusttracing::vector::{SizeError, Vec3};

#[test]
fn vector_add() {
    assert_eq!(Vec3::new(2, 4, 6) + Vec3::new(3, 6, 9), Vec3::new(5, 10, 15));
    assert_eq!(Vec3::new(3, 9, 3) + Vec3::new(2, 7, 1), Vec3::new(5, 16, 4));
    assert_eq!(Vec3::new(5, 9, 5) + Vec3::new(5, 4, 2), Vec3::new(10, 13, 7));
    assert_eq!(Vec3::new(7, 8, 5) + Vec3::new(3, 3, 3), Vec3::new(10, 11, 8));
    assert_eq!(Vec3::new(0, 1, 2) + Vec3::new(1, 2, 4), Vec3::new(1, 3, 6));
}

#[test]
fn vector_sub() {
    assert_eq!(Vec3::new(2, 4, 6) - Vec3::new(3, 6, 9), Vec3::new(-1, -2, -3));
    assert_eq!(Vec3::new(3, 9, 3) - Vec3::new(2, 7, 1), Vec3::new(1, 2, 2));
    assert_eq!(Vec3::new(5, 9, 5) - Vec3::new(5, 4, 2), Vec3::new(0, 5, 3));
    assert_eq!(Vec3::new(7, 8, 5) - Vec3::new(3, 3, 3), Vec3::new(4, 5, 2));
    assert_eq!(Vec3::new(0, 1, 2) - Vec3::new(1, 2, 4), Vec3::new(-1, -1, -2));
}

#[test]
fn vector_scale() {
    assert_eq!(Vec3::new(2, 4, 6) * 3, Vec3::new(6, 12, 18));
    assert_eq!(Vec3::new(3, 9, 3) * 2, Vec3::new(6, 18, 6));
    assert_eq!(Vec3::new(5, 9, 5) * 5, Vec3::new(25, 45, 25));
    assert_eq!(Vec3::new(7, 8, 5) * 3, Vec3::new(21, 24, 15));
    assert_eq!(Vec3::new(0, 1, 2) * 1, Vec3::new(0, 1, 2));
}

#[test]
fn vector_dot() {
    assert_eq!(Vec3::new(2, 4, 6) * Vec3::new(3, 6, 9), 84);
    assert_eq!(Vec3::new(3, 9, 3) * Vec3::new(2, 7, 1), 72);
    assert_eq!(Vec3::new(5, 9, 5) * Vec3::new(5, 4, 2), 71);
    assert_eq!(Vec3::new(7, 8, 5) * Vec3::new(3, 3, 3), 60);
    assert_eq!(Vec3::new(0, 1, 2) * Vec3::new(1, 2, 4), 10);
}

#[test]
fn cross() {
    assert_eq!(Vec3::new(1, 2, 3).cross(&Vec3::new(3, 4, 5)), Vec3::new(-2, 4, -2));
    assert_eq!(Vec3::new(7, 9, 11).cross(&Vec3::new(1, 2, 4)), Vec3::new(14, -17, 5));
}

#[test]
fn cross_is_orthogonal_to_both_edges() {
    let a = Vec3::new(3, -1, 4);
    let b = Vec3::new(-2, 5, 7);
    let n = a.cross(&b);
    assert_eq!(n * a, 0);
    assert_eq!(n * b, 0);
    assert_eq!(n, Vec3::new(-27, -29, 13));
}

#[test]
fn length_squared_sums_squares() {
    assert_eq!(Vec3::new(1, 2, 3).length_squared(), 14);
    assert_eq!(Vec3::new(0, 0, 0).length_squared(), 0);
    assert_eq!(Vec3::new(-3, 4, 0).length_squared(), 25);
}

#[test]
fn division_rounds_toward_zero() {
    assert_eq!(Vec3::new(7, -7, 6) / 2, Vec3::new(3, -3, 3));
    assert_eq!(Vec3::new(7, -7, 0) / -2, Vec3::new(-3, 3, 0));
    assert_eq!(Vec3::new(2, 4, 6) / 4, Vec3::new(0, 1, 1));
}

#[test]
fn vector_from_vec() {
    assert_eq!(Vec3::try_from(vec![1i64, 2, 3]), Ok(Vec3::new(1, 2, 3)));
    assert_eq!(Vec3::try_from(vec![1i64, 2]), Err(SizeError));
    assert_eq!(Vec3::try_from(vec![1i64, 2, 3, 4]), Err(SizeError));
}
