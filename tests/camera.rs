use rusttracing::camera::Camera;
use rusttracing::matrix::Matrix;
use rusttracing::vector::Vec3;

#[test]
fn transform() {
    let rotright = Camera {
        position: Vec3::new(0, 10, 0),
        rotation: Matrix::from_rows(vec![vec![0, 0, 1], vec![0, 1, 0], vec![-1, 0, 0]]).unwrap(),
    };

    assert_eq!(rotright.transform(Vec3::new(1, 0, 0)), Vec3::new(0, 0, -1));

    assert_eq!(rotright.transform(Vec3::new(1, 2, 3)), Vec3::new(3, 2, -1));

    assert_eq!(
        Camera::new(Vec3::new(1, 2, 3), Vec3::new(0, 0, 0)).transform(Vec3::new(1, 2, 3)),
        Vec3::new(1, 2, 3)
    );

    assert_eq!(
        Camera::new(Vec3::new(1, 2, 3), Vec3::new(0, 90, 0)).transform(Vec3::new(1, 2, 3)),
        Vec3::new(3, 2, -1)
    );
}

#[test]
fn camera_faces_its_third_column() {
    let cam = Camera::new(Vec3::new(2, 4, -2), Vec3::new(0, 90, 0));
    let ray = cam.ray();
    assert_eq!(ray.origin, Vec3::new(2, 4, -2));
    assert_eq!(ray.direction, Vec3::new(1, 0, 0));
    assert_eq!(ray.direction, cam.transform(Vec3::new(0, 0, 1)));
}

#[test]
fn transform_does_not_offset_by_position() {
    let cam = Camera::new(Vec3::new(100, 200, 300), Vec3::new(0, 0, 0));
    assert_eq!(cam.transform(Vec3::new(0, 0, 0)), Vec3::new(0, 0, 0));
}
