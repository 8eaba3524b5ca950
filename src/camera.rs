use vstd::prelude::*;

use crate::matrix::{is_quarter_turn, rotation_of, Matrix};
use crate::ray::Ray;
use crate::vector::{fits_i64, Vec3};

verus! {

/// A camera: a position and a rotation matrix.
///
/// The columns of the rotation are the camera's right, up and facing directions.
pub struct Camera {
    /// The position of the camera in 3D space.
    pub position: Vec3,
    /// The rotation of the camera, a 3 x 3 matrix.
    pub rotation: Matrix,
}

/// Row `i` of the 3 x 3 matrix `m` times the vector `v`.
pub open spec fn row_times(m: Seq<Seq<i64>>, i: int, v: Vec3) -> int {
    m[i][0] * v.x + m[i][1] * v.y + m[i][2] * v.z
}

/// Every product and partial sum of row `i` of `m` times `v` fits in an `i64`.
pub open spec fn row_fits(m: Seq<Seq<i64>>, i: int, v: Vec3) -> bool {
    &&& fits_i64(m[i][0] * v.x)
    &&& fits_i64(m[i][1] * v.y)
    &&& fits_i64(m[i][2] * v.z)
    &&& fits_i64(m[i][0] * v.x + m[i][1] * v.y)
    &&& fits_i64(row_times(m, i, v))
}

/// Every product and partial sum of `m * v` fits in an `i64`.
pub open spec fn transform_fits(m: Seq<Seq<i64>>, v: Vec3) -> bool {
    row_fits(m, 0, v) && row_fits(m, 1, v) && row_fits(m, 2, v)
}

impl Camera {
    /// Whether the rotation is a well-formed 3 x 3 matrix.
    pub open spec fn wf(&self) -> bool {
        self.rotation.wf() && self.rotation.height == 3 && self.rotation.width == 3
    }

    /// Creates a camera from a position and a rotation in degrees, clockwise about the
    /// x, y and z axes; each angle is a whole number of quarter turns.
    pub fn new(position: Vec3, rotation: Vec3) -> (r: Camera)
        requires
            is_quarter_turn(rotation.x as int),
            is_quarter_turn(rotation.y as int),
            is_quarter_turn(rotation.z as int),
        ensures
            r.wf(),
            r.position == position,
            r.rotation@ == rotation_of(rotation),
    {
        Camera { position, rotation: Matrix::rotation(&rotation) }
    }

    /// The direction the camera is facing, as a ray from its position: the third column of
    /// the rotation.
    pub fn ray(&self) -> (r: Ray)
        requires
            self.wf(),
        ensures
            r.origin == self.position,
            r.direction.x == self.rotation@[0][2],
            r.direction.y == self.rotation@[1][2],
            r.direction.z == self.rotation@[2][2],
    {
        Ray {
            origin: self.position,
            direction: Vec3::new(
                *self.rotation.at(1, 3),
                *self.rotation.at(2, 3),
                *self.rotation.at(3, 3),
            ),
        }
    }

    /// Rotates a point from camera space into world space: the rotation times the vector.
    ///
    /// Does not offset by the position.
    pub fn transform(&self, vec: Vec3) -> (r: Vec3)
        requires
            self.wf(),
            transform_fits(self.rotation@, vec),
        ensures
            r.x == row_times(self.rotation@, 0, vec),
            r.y == row_times(self.rotation@, 1, vec),
            r.z == row_times(self.rotation@, 2, vec),
    {
        let m = &self.rotation;
        Vec3::new(
            *m.at(1, 1) * vec.x + *m.at(1, 2) * vec.y + *m.at(1, 3) * vec.z,
            *m.at(2, 1) * vec.x + *m.at(2, 2) * vec.y + *m.at(2, 3) * vec.z,
            *m.at(3, 1) * vec.x + *m.at(3, 2) * vec.y + *m.at(3, 3) * vec.z,
        )
    }
}

} // verus!
