use rusttracing::ray::Ray;
use rusttracing::vector::Vec3;

#[test]
fn ray_at() {
    assert_eq!(
        Ray { origin: Vec3::new(1, 2, 3), direction: Vec3::new(1, 0, 0) }.at(0),
        Vec3::new(1, 2, 3)
    );
}

#[test]
fn ray_moves_linearly() {
    let ray = Ray { origin: Vec3::new(1, -2, 3), direction: Vec3::new(0, 3, -1) };
    assert_eq!(ray.at(0), ray.origin);
    assert_eq!(ray.at(5), Vec3::new(1, 13, -2));
    assert_eq!(ray.at(2 + 3) - ray.at(2), ray.direction * 3);
    assert_eq!(ray.at(-4), Vec3::new(1, -14, 7));
}
