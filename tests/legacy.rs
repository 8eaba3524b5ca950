use rusttracing::matrix::Matrix;
use rusttracing::ray::Ray;
use rusttracing::vector::Vec3;

fn mat(rows: Vec<Vec<i64>>) -> Matrix {
    Matrix::from_rows(rows).unwrap()
}

#[test]
fn tests_add() {
    assert_eq!(Vec3::new(2, 4, 6) + Vec3::new(3, 6, 9), Vec3::new(5, 10, 15));
    assert_eq!(Vec3::new(3, 9, 3) + Vec3::new(2, 7, 1), Vec3::new(5, 16, 4));
    assert_eq!(Vec3::new(5, 9, 5) + Vec3::new(5, 4, 2), Vec3::new(10, 13, 7));
    assert_eq!(Vec3::new(7, 8, 5) + Vec3::new(3, 3, 3), Vec3::new(10, 11, 8));
    assert_eq!(Vec3::new(0, 1, 2) + Vec3::new(1, 2, 4), Vec3::new(1, 3, 6));

    assert_eq!(
        (mat(vec![vec![1, 2, 3], vec![4, 5, 6]]) + mat(vec![vec![1, 3, 5], vec![2, 4, 6]])).unwrap(),
        mat(vec![vec![2, 5, 8], vec![6, 9, 12]])
    );
}

#[test]
fn tests_sub() {
    assert_eq!(Vec3::new(2, 4, 6) - Vec3::new(3, 6, 9), Vec3::new(-1, -2, -3));
    assert_eq!(Vec3::new(3, 9, 3) - Vec3::new(2, 7, 1), Vec3::new(1, 2, 2));
    assert_eq!(Vec3::new(5, 9, 5) - Vec3::new(5, 4, 2), Vec3::new(0, 5, 3));
    assert_eq!(Vec3::new(7, 8, 5) - Vec3::new(3, 3, 3), Vec3::new(4, 5, 2));
    assert_eq!(Vec3::new(0, 1, 2) - Vec3::new(1, 2, 4), Vec3::new(-1, -1, -2));

    assert_eq!(
        (mat(vec![vec![1, 2, 3], vec![4, 5, 6]]) - mat(vec![vec![1, 3, 5], vec![2, 4, 6]])).unwrap(),
        mat(vec![vec![0, -1, -2], vec![2, 1, 0]])
    );
}

#[test]
fn tests_scale() {
    assert_eq!(Vec3::new(2, 4, 6) * 3, Vec3::new(6, 12, 18));
    assert_eq!(Vec3::new(3, 9, 3) * 2, Vec3::new(6, 18, 6));
    assert_eq!(Vec3::new(5, 9, 5) * 5, Vec3::new(25, 45, 25));
    assert_eq!(Vec3::new(7, 8, 5) * 3, Vec3::new(21, 24, 15));
    assert_eq!(Vec3::new(0, 1, 2) * 1, Vec3::new(0, 1, 2));

    assert_eq!(
        mat(vec![vec![1, 2, 3], vec![4, 5, 6]]) * 2,
        mat(vec![vec![2, 4, 6], vec![8, 10, 12]])
    );
    assert_eq!(
        mat(vec![vec![1, 2, 4], vec![4, 8, 6]]) / 2,
        mat(vec![vec![0, 1, 2], vec![2, 4, 3]])
    );
}

#[test]
fn tests_dot() {
    assert_eq!(Vec3::new(2, 4, 6) * Vec3::new(3, 6, 9), 84);
    assert_eq!(Vec3::new(3, 9, 3) * Vec3::new(2, 7, 1), 72);
    assert_eq!(Vec3::new(5, 9, 5) * Vec3::new(5, 4, 2), 71);
    assert_eq!(Vec3::new(7, 8, 5) * Vec3::new(3, 3, 3), 60);
    assert_eq!(Vec3::new(0, 1, 2) * Vec3::new(1, 2, 4), 10);
}

#[test]
fn tests_at() {
    assert_eq!(
        Ray { origin: Vec3::new(1, 2, 3), direction: Vec3::new(1, 0, 0) }.at(0),
        Vec3::new(1, 2, 3)
    );

    assert_eq!(*mat(vec![vec![0, 2, 0], vec![0, 0, 4]]).at(2, 3), 4);
    assert_eq!(*mat(vec![vec![0, 2, 0], vec![0, 0, 4]]).at(1, 2), 2);
}

#[test]
fn tests_new() {
    assert_eq!(mat(vec![vec![0, 0, 0], vec![0, 0, 0], vec![0, 0, 0]]), Matrix::new(3, 3));
    assert_eq!(mat(vec![vec![0, 0], vec![0, 0], vec![0, 0]]), Matrix::new(3, 2));
    assert_eq!(mat(vec![vec![0, 0, 0], vec![0, 0, 0]]), Matrix::new(2, 3));
}

#[test]
fn tests_mul() {
    assert_eq!(
        (mat(vec![vec![1, 2], vec![3, 4], vec![5, 6]]) * mat(vec![vec![1, 0], vec![0, 1]])).unwrap(),
        mat(vec![vec![1, 2], vec![3, 4], vec![5, 6]])
    );
    assert_eq!(
        (mat(vec![vec![1, 2, 7], vec![3, 4, 8], vec![5, 6, 9]])
            * mat(vec![vec![1, 0, 0], vec![0, 1, 0], vec![0, 0, 1]]))
        .unwrap(),
        mat(vec![vec![1, 2, 7], vec![3, 4, 8], vec![5, 6, 9]])
    );
    assert_eq!(
        (mat(vec![vec![1, 2], vec![3, 4], vec![5, 6]]) * mat(vec![vec![1, 0], vec![1, 1]])).unwrap(),
        mat(vec![vec![3, 2], vec![7, 4], vec![11, 6]])
    );
}

#[test]
fn tests_transpose() {
    assert_eq!(
        mat(vec![vec![1, 2], vec![3, 4], vec![5, 6]]).transpose(),
        mat(vec![vec![1, 3, 5], vec![2, 4, 6]])
    );
}

#[test]
fn tests_cofactor() {
    assert_eq!(
        mat(vec![vec![1, 2], vec![3, 4]]).cofactors(),
        mat(vec![vec![1, -2], vec![-3, 4]])
    );
    assert_eq!(
        mat(vec![vec![1, 2], vec![3, 4], vec![5, 6]]).cofactors(),
        mat(vec![vec![1, -2], vec![-3, 4], vec![5, -6]])
    );
}

#[test]
fn tests_minor() {
    assert_eq!(mat(vec![vec![1, 2], vec![3, 4]]).minor(1, 2), mat(vec![vec![3]]));
    assert_eq!(
        mat(vec![vec![1, 2, 7], vec![3, 4, 8], vec![5, 6, 9]]).minor(1, 2),
        mat(vec![vec![3, 8], vec![5, 9]])
    );
}
