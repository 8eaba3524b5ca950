//! The verified core of a ray tracer: exact integer vectors, rays, matrices and cameras,
//! nearest-hit resolution, binary STL parsing, and image assembly and PPM encoding.

/// Vectors in 3D space with integer coordinates.
pub mod vector;

/// Rays: an origin and a direction.
pub mod ray;

/// Integer matrices of any size, and quarter-turn rotations.
pub mod matrix;

/// A camera: a position and a rotation.
pub mod camera;

/// Reading binary STL meshes.
pub mod stl;

/// Images assembled column by column, and their PPM encoding.
pub mod image;

/// Which of the objects along a ray is hit first.
pub mod nearest;
