use rusttracing::matrix::{Matrix, SizeMismatch};
use rusttracing::vector::{SizeError, Vec3};

fn mat(rows: Vec<Vec<i64>>) -> Matrix {
    Matrix::from_rows(rows).unwrap()
}

#[test]
fn matrix_new() {
    assert_eq!(mat(vec![vec![0, 0, 0], vec![0, 0, 0], vec![0, 0, 0]]), Matrix::new(3, 3));
    assert_eq!(mat(vec![vec![0, 0], vec![0, 0], vec![0, 0]]), Matrix::new(3, 2));
    assert_eq!(mat(vec![vec![0, 0, 0], vec![0, 0, 0]]), Matrix::new(2, 3));
}

#[test]
fn matrix_at() {
    assert_eq!(*mat(vec![vec![0, 2, 0], vec![0, 0, 4]]).at(2, 3), 4);
    assert_eq!(*mat(vec![vec![0, 2, 0], vec![0, 0, 4]]).at(1, 2), 2);
}

#[test]
fn matrix_add() {
    assert_eq!(
        (mat(vec![vec![1, 2, 3], vec![4, 5, 6]]) + mat(vec![vec![1, 3, 5], vec![2, 4, 6]])).unwrap(),
        mat(vec![vec![2, 5, 8], vec![6, 9, 12]])
    );
}

#[test]
fn matrix_sub() {
    assert_eq!(
        (mat(vec![vec![1, 2, 3], vec![4, 5, 6]]) - mat(vec![vec![1, 3, 5], vec![2, 4, 6]])).unwrap(),
        mat(vec![vec![0, -1, -2], vec![2, 1, 0]])
    );
}

#[test]
fn matrix_scale() {
    assert_eq!(
        mat(vec![vec![1, 2, 3], vec![4, 5, 6]]) * 2,
        mat(vec![vec![2, 4, 6], vec![8, 10, 12]])
    );
    assert_eq!(
        mat(vec![vec![1, 2, 4], vec![4, 8, 6]]) / 2,
        mat(vec![vec![0, 1, 2], vec![2, 4, 3]])
    );
}

#[test]
fn matrix_mul() {
    assert_eq!(
        (mat(vec![vec![1, 2], vec![3, 4], vec![5, 6]]) * mat(vec![vec![1, 0], vec![0, 1]])).unwrap(),
        mat(vec![vec![1, 2], vec![3, 4], vec![5, 6]])
    );
    assert_eq!(
        (mat(vec![vec![1, 2, 7], vec![3, 4, 8], vec![5, 6, 9]])
            * mat(vec![vec![1, 0, 0], vec![0, 1, 0], vec![0, 0, 1]]))
        .unwrap(),
        mat(vec![vec![1, 2, 7], vec![3, 4, 8], vec![5, 6, 9]])
    );
    assert_eq!(
        (mat(vec![vec![1, 2], vec![3, 4], vec![5, 6]]) * mat(vec![vec![1, 0], vec![1, 1]])).unwrap(),
        mat(vec![vec![3, 2], vec![7, 4], vec![11, 6]])
    );
}

#[test]
fn matrix_transpose() {
    assert_eq!(
        mat(vec![vec![1, 2], vec![3, 4], vec![5, 6]]).transpose(),
        mat(vec![vec![1, 3, 5], vec![2, 4, 6]])
    );
}

#[test]
fn matrix_cofactor() {
    assert_eq!(
        mat(vec![vec![1, 2], vec![3, 4]]).cofactors(),
        mat(vec![vec![1, -2], vec![-3, 4]])
    );
    assert_eq!(
        mat(vec![vec![1, 2], vec![3, 4], vec![5, 6]]).cofactors(),
        mat(vec![vec![1, -2], vec![-3, 4], vec![5, -6]])
    );
}

#[test]
fn matrix_minor() {
    assert_eq!(mat(vec![vec![1, 2], vec![3, 4]]).minor(1, 2), mat(vec![vec![3]]));
    assert_eq!(
        mat(vec![vec![1, 2, 7], vec![3, 4, 8], vec![5, 6, 9]]).minor(1, 2),
        mat(vec![vec![3, 8], vec![5, 9]])
    );
}

#[test]
fn matrix_det() {
    assert_eq!(mat(vec![vec![1, 0], vec![0, 1]]).det().unwrap(), 1);
    assert_eq!(mat(vec![vec![1, 2], vec![3, 4]]).det().unwrap(), -2);
    assert_eq!(mat(vec![vec![1, 2, 3], vec![3, 2, 1], vec![2, 1, 3]]).det().unwrap(), -12);
}

#[test]
fn minors() {
    assert_eq!(
        mat(vec![vec![1, 2, 3], vec![3, 2, 1], vec![2, 1, 3]]).minors().unwrap(),
        mat(vec![vec![5, 7, -1], vec![3, -3, -3], vec![-4, -8, -4]])
    );
}

#[test]
fn inverse() {
    assert_eq!(
        mat(vec![vec![1, 0, 0], vec![0, 1, 0], vec![0, 0, 1]]).inverse().unwrap(),
        mat(vec![vec![1, 0, 0], vec![0, 1, 0], vec![0, 0, 1]])
    );
    assert_eq!(
        mat(vec![vec![1, 1, 1], vec![1, 2, -3], vec![1, -3, 18]]).inverse().unwrap(),
        mat(vec![vec![27, -21, -5], vec![-21, 17, 4], vec![-5, 4, 1]])
    );
}

#[test]
fn inverse_of_unsymmetric_matrix_is_transposed_adjugate() {
    let m = mat(vec![vec![2, 1], vec![1, 1]]);
    assert_eq!(m.inverse().unwrap(), mat(vec![vec![1, -1], vec![-1, 2]]));
    let m = mat(vec![vec![1, 2], vec![0, 1]]);
    let inv = m.clone().inverse().unwrap();
    assert_eq!(inv, mat(vec![vec![1, -2], vec![0, 1]]));
    assert_eq!((m * inv).unwrap(), Matrix::ident(2));
}

#[test]
fn inverse_fails_on_singular_or_non_square() {
    assert_eq!(mat(vec![vec![1, 2], vec![2, 4]]).inverse(), Err(SizeMismatch));
    assert_eq!(mat(vec![vec![1, 2, 3], vec![4, 5, 6]]).inverse(), Err(SizeMismatch));
}

#[test]
fn size_mismatches_are_errors() {
    let a = mat(vec![vec![1, 2], vec![4, 5], vec![7, 8]]);
    let b = mat(vec![vec![1, 3, 5], vec![2, 4, 6]]);
    assert_eq!(a.clone() + b.clone(), Err(SizeMismatch));
    assert_eq!(a.clone() - b.clone(), Err(SizeMismatch));
    assert_eq!(a.clone() * a.clone(), Err(SizeMismatch));
    assert_eq!(a.det(), Err(SizeMismatch));
    assert_eq!(b.minors(), Err(SizeMismatch));
}

#[test]
fn ident_has_ones_on_the_diagonal() {
    assert_eq!(Matrix::ident(3), mat(vec![vec![1, 0, 0], vec![0, 1, 0], vec![0, 0, 1]]));
    assert_eq!(Matrix::ident(1).height(), 1);
    assert_eq!(Matrix::ident(4).width(), 4);
}

#[test]
fn from_rows_rejects_ragged_rows() {
    assert_eq!(Matrix::from_rows(vec![vec![1, 2], vec![3]]), Err(SizeMismatch));
    assert_eq!(Matrix::from_rows(vec![vec![], vec![]]), Err(SizeMismatch));
    assert_eq!(Matrix::from_rows(vec![]).unwrap().height(), 0);
}

#[test]
fn det_of_larger_matrix() {
    let m = mat(vec![vec![2, 0, 1, 3], vec![1, 1, 0, 2], vec![0, 4, 1, 1], vec![3, 2, 2, 0]]);
    assert_eq!(m.det().unwrap(), -30);
}

#[test]
fn mut_at_reads_without_changing() {
    let mut m = mat(vec![vec![1, 2], vec![3, 4]]);
    assert_eq!(*m.mut_at(2, 1), 3);
    assert_eq!(m, mat(vec![vec![1, 2], vec![3, 4]]));
}

#[test]
fn quarter_turn_rotation() {
    let r = Matrix::rotation(&Vec3::new(0, 90, 0));
    assert_eq!(r, mat(vec![vec![0, 0, 1], vec![0, 1, 0], vec![-1, 0, 0]]));
    let r = Matrix::rotation(&Vec3::new(0, 0, 0));
    assert_eq!(r, Matrix::ident(3));
    let r = Matrix::rotation(&Vec3::new(90, 0, -90));
    assert_eq!(r, mat(vec![vec![0, 0, -1], vec![1, 0, 0], vec![0, -1, 0]]));
    assert_eq!(Matrix::rotation(&Vec3::new(360, -270, 450)), Matrix::rotation(&Vec3::new(0, 90, 90)));
}

#[test]
fn vector_from_column_matrix() {
    assert_eq!(Vec3::try_from(mat(vec![vec![1], vec![2], vec![3]])), Ok(Vec3::new(1, 2, 3)));
    assert_eq!(Vec3::try_from(mat(vec![vec![1, 2, 3]])), Err(SizeError));
}
