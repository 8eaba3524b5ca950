use vstd::prelude::*;

use crate::vector::{fits_i64, Vec3};

verus! {

/// A ray in 3D space: a start point and a direction.
#[derive(Clone, Copy, Debug, PartialEq, Eq, Structural)]
pub struct Ray {
    /// The start position of the ray.
    pub origin: Vec3,
    /// The direction of travel.
    pub direction: Vec3,
}

/// The x coordinate of the point at distance `t` along the ray.
pub open spec fn point_x(ray: Ray, t: int) -> int {
    ray.origin.x + ray.direction.x * t
}

/// The y coordinate of the point at distance `t` along the ray.
pub open spec fn point_y(ray: Ray, t: int) -> int {
    ray.origin.y + ray.direction.y * t
}

/// The z coordinate of the point at distance `t` along the ray.
pub open spec fn point_z(ray: Ray, t: int) -> int {
    ray.origin.z + ray.direction.z * t
}

/// The point at distance `t` along the ray, and each step of computing it, fits in an `i64`.
pub open spec fn point_fits(ray: Ray, t: int) -> bool {
    &&& fits_i64(ray.direction.x * t)
    &&& fits_i64(ray.direction.y * t)
    &&& fits_i64(ray.direction.z * t)
    &&& fits_i64(point_x(ray, t))
    &&& fits_i64(point_y(ray, t))
    &&& fits_i64(point_z(ray, t))
}

impl Ray {
    /// The position reached after travelling `k` steps of the direction from the origin.
    pub fn at(&self, k: i64) -> (r: Vec3)
        requires
            point_fits(*self, k as int),
        ensures
            r.x == point_x(*self, k as int),
            r.y == point_y(*self, k as int),
            r.z == point_z(*self, k as int),
    {
        self.origin + self.direction * k
    }
}

/// A ray starts at its origin, and moving a further `t2` along it from the point at `t1`
/// moves by exactly `t2` steps of its direction.
pub proof fn lemma_at_linear(ray: Ray, t1: int, t2: int)
    ensures
        point_x(ray, 0) == ray.origin.x,
        point_y(ray, 0) == ray.origin.y,
        point_z(ray, 0) == ray.origin.z,
        point_x(ray, t1 + t2) - point_x(ray, t1) == ray.direction.x * t2,
        point_y(ray, t1 + t2) - point_y(ray, t1) == ray.direction.y * t2,
        point_z(ray, t1 + t2) - point_z(ray, t1) == ray.direction.z * t2,
{
    let (dx, dy, dz) = (ray.direction.x as int, ray.direction.y as int, ray.direction.z as int);
    assert(dx * (t1 + t2) == dx * t1 + dx * t2) by (nonlinear_arith);
    assert(dy * (t1 + t2) == dy * t1 + dy * t2) by (nonlinear_arith);
    assert(dz * (t1 + t2) == dz * t1 + dz * t2) by (nonlinear_arith);
}

} // verus!
