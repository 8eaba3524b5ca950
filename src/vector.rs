use vstd::prelude::*;

verus! {

/// Whether a mathematical integer can be stored in an `i64`.
pub open spec fn fits_i64(v: int) -> bool {
    i64::MIN <= v <= i64::MAX
}

/// Rust's integer division, which rounds toward zero.
pub open spec fn div_trunc(a: int, b: int) -> int {
    if a >= 0 {
        a / b
    } else {
        -((-a) / b)
    }
}

/// A point or direction in 3D space with integer coordinates.
#[derive(Clone, Copy, Debug, PartialEq, Eq, Structural)]
pub struct Vec3 {
    /// The x amount.
    pub x: i64,
    /// The y amount.
    pub y: i64,
    /// The z amount.
    pub z: i64,
}

/// The error for a collection that does not hold exactly three coordinates.
#[derive(Clone, Copy, Debug, PartialEq, Eq, Structural)]
pub struct SizeError;

/// The dot product of two vectors.
pub open spec fn dot(a: Vec3, b: Vec3) -> int {
    a.x * b.x + a.y * b.y + a.z * b.z
}

/// The x coordinate of the cross product `a x b`.
pub open spec fn cross_x(a: Vec3, b: Vec3) -> int {
    a.y * b.z - b.y * a.z
}

/// The y coordinate of the cross product `a x b`.
pub open spec fn cross_y(a: Vec3, b: Vec3) -> int {
    b.x * a.z - a.x * b.z
}

/// The z coordinate of the cross product `a x b`.
pub open spec fn cross_z(a: Vec3, b: Vec3) -> int {
    a.x * b.y - b.x * a.y
}

/// Every product and partial sum of the dot product fits in an `i64`.
pub open spec fn dot_fits(a: Vec3, b: Vec3) -> bool {
    &&& fits_i64(a.x * b.x)
    &&& fits_i64(a.y * b.y)
    &&& fits_i64(a.z * b.z)
    &&& fits_i64(a.x * b.x + a.y * b.y)
    &&& fits_i64(dot(a, b))
}

/// Every product and difference of the cross product fits in an `i64`.
pub open spec fn cross_fits(a: Vec3, b: Vec3) -> bool {
    &&& fits_i64(a.y * b.z)
    &&& fits_i64(b.y * a.z)
    &&& fits_i64(b.x * a.z)
    &&& fits_i64(a.x * b.z)
    &&& fits_i64(a.x * b.y)
    &&& fits_i64(b.x * a.y)
    &&& fits_i64(cross_x(a, b))
    &&& fits_i64(cross_y(a, b))
    &&& fits_i64(cross_z(a, b))
}

/// The component-wise sum fits in an `i64`.
pub open spec fn add_fits(a: Vec3, b: Vec3) -> bool {
    fits_i64(a.x + b.x) && fits_i64(a.y + b.y) && fits_i64(a.z + b.z)
}

/// The component-wise difference fits in an `i64`.
pub open spec fn sub_fits(a: Vec3, b: Vec3) -> bool {
    fits_i64(a.x - b.x) && fits_i64(a.y - b.y) && fits_i64(a.z - b.z)
}

/// Scaling every coordinate by `k` fits in an `i64`.
pub open spec fn scale_fits(a: Vec3, k: i64) -> bool {
    fits_i64(a.x * k) && fits_i64(a.y * k) && fits_i64(a.z * k)
}

/// Dividing every coordinate by `k` is defined and fits in an `i64`.
pub open spec fn div_ok(a: Vec3, k: i64) -> bool {
    k != 0 && (k == -1 ==> a.x != i64::MIN && a.y != i64::MIN && a.z != i64::MIN)
}

impl Vec3 {
    /// Builds a vector from its three coordinates.
    pub fn new(x: i64, y: i64, z: i64) -> (r: Vec3)
        ensures
            r.x == x,
            r.y == y,
            r.z == z,
    {
        Vec3 { x, y, z }
    }

    /// The cross product `self x other`, orthogonal to both vectors.
    pub fn cross(&self, other: &Vec3) -> (r: Vec3)
        requires
            cross_fits(*self, *other),
        ensures
            r.x == cross_x(*self, *other),
            r.y == cross_y(*self, *other),
            r.z == cross_z(*self, *other),
    {
        Vec3 {
            x: self.y * other.z - other.y * self.z,
            y: other.x * self.z - self.x * other.z,
            z: self.x * other.y - other.x * self.y,
        }
    }

    /// The squared magnitude of the vector.
    pub fn length_squared(&self) -> (r: i64)
        requires
            dot_fits(*self, *self),
        ensures
            r == dot(*self, *self),
    {
        self.x * self.x + self.y * self.y + self.z * self.z
    }
}

impl core::ops::Add for Vec3 {
    type Output = Vec3;

    fn add(self, other: Vec3) -> (r: Vec3) {
        Vec3 { x: self.x + other.x, y: self.y + other.y, z: self.z + other.z }
    }
}

impl vstd::std_specs::ops::AddSpecImpl for Vec3 {
    open spec fn obeys_add_spec() -> bool {
        true
    }

    open spec fn add_req(self, other: Vec3) -> bool {
        add_fits(self, other)
    }

    open spec fn add_spec(self, other: Vec3) -> Vec3 {
        Vec3 {
            x: (self.x + other.x) as i64,
            y: (self.y + other.y) as i64,
            z: (self.z + other.z) as i64,
        }
    }
}

impl core::ops::Sub for Vec3 {
    type Output = Vec3;

    fn sub(self, other: Vec3) -> (r: Vec3) {
        Vec3 { x: self.x - other.x, y: self.y - other.y, z: self.z - other.z }
    }
}

impl vstd::std_specs::ops::SubSpecImpl for Vec3 {
    open spec fn obeys_sub_spec() -> bool {
        true
    }

    open spec fn sub_req(self, other: Vec3) -> bool {
        sub_fits(self, other)
    }

    open spec fn sub_spec(self, other: Vec3) -> Vec3 {
        Vec3 {
            x: (self.x - other.x) as i64,
            y: (self.y - other.y) as i64,
            z: (self.z - other.z) as i64,
        }
    }
}

impl core::ops::Mul<i64> for Vec3 {
    type Output = Vec3;

    fn mul(self, k: i64) -> (r: Vec3) {
        Vec3 { x: self.x * k, y: self.y * k, z: self.z * k }
    }
}

impl vstd::std_specs::ops::MulSpecImpl<i64> for Vec3 {
    open spec fn obeys_mul_spec() -> bool {
        true
    }

    open spec fn mul_req(self, k: i64) -> bool {
        scale_fits(self, k)
    }

    open spec fn mul_spec(self, k: i64) -> Vec3 {
        Vec3 { x: (self.x * k) as i64, y: (self.y * k) as i64, z: (self.z * k) as i64 }
    }
}

impl core::ops::Div<i64> for Vec3 {
    type Output = Vec3;

    fn div(self, k: i64) -> (r: Vec3) {
        Vec3 { x: self.x / k, y: self.y / k, z: self.z / k }
    }
}

impl vstd::std_specs::ops::DivSpecImpl<i64> for Vec3 {
    open spec fn obeys_div_spec() -> bool {
        true
    }

    open spec fn div_req(self, k: i64) -> bool {
        div_ok(self, k)
    }

    open spec fn div_spec(self, k: i64) -> Vec3 {
        Vec3 {
            x: div_trunc(self.x as int, k as int) as i64,
            y: div_trunc(self.y as int, k as int) as i64,
            z: div_trunc(self.z as int, k as int) as i64,
        }
    }
}

/// `a * b` between two vectors is their dot product.
impl core::ops::Mul<Vec3> for Vec3 {
    type Output = i64;

    fn mul(self, other: Vec3) -> (r: i64) {
        self.x * other.x + self.y * other.y + self.z * other.z
    }
}

impl vstd::std_specs::ops::MulSpecImpl<Vec3> for Vec3 {
    open spec fn obeys_mul_spec() -> bool {
        true
    }

    open spec fn mul_req(self, other: Vec3) -> bool {
        dot_fits(self, other)
    }

    open spec fn mul_spec(self, other: Vec3) -> i64 {
        dot(self, other) as i64
    }
}

impl TryFrom<Vec<i64>> for Vec3 {
    type Error = SizeError;

    /// Takes the three items of a `Vec` as x, y and z.
    fn try_from(v: Vec<i64>) -> (r: Result<Vec3, SizeError>) {
        if v.len() == 3 {
            Ok(Vec3 { x: v[0], y: v[1], z: v[2] })
        } else {
            Err(SizeError)
        }
    }
}

impl vstd::std_specs::convert::TryFromSpecImpl<Vec<i64>> for Vec3 {
    open spec fn obeys_try_from_spec() -> bool {
        true
    }

    open spec fn try_from_spec(v: Vec<i64>) -> Result<Vec3, SizeError> {
        if v@.len() == 3 {
            Ok(Vec3 { x: v@[0], y: v@[1], z: v@[2] })
        } else {
            Err(SizeError)
        }
    }
}

proof fn lemma_triple_product_repeated(px: int, py: int, pz: int, qx: int, qy: int, qz: int)
    ensures
        px * (py * qz - qy * pz) + py * (qx * pz - px * qz) + pz * (px * qy - qx * py) == 0,
        qx * (py * qz - qy * pz) + qy * (qx * pz - px * qz) + qz * (px * qy - qx * py) == 0,
{
    assert(px * (py * qz - qy * pz) + py * (qx * pz - px * qz) + pz * (px * qy - qx * py) == 0)
        by (nonlinear_arith);
    assert(qx * (py * qz - qy * pz) == qx * py * qz - qx * qy * pz) by (nonlinear_arith);
    assert(qy * (qx * pz - px * qz) == qy * qx * pz - qy * px * qz) by (nonlinear_arith);
    assert(qz * (px * qy - qx * py) == qz * px * qy - qz * qx * py) by (nonlinear_arith);
    assert(qx * py * qz == qz * qx * py) by (nonlinear_arith);
    assert(qx * qy * pz == qy * qx * pz) by (nonlinear_arith);
    assert(qy * px * qz == qz * px * qy) by (nonlinear_arith);
}

/// The cross product of two vectors is orthogonal to each of them.
pub proof fn lemma_cross_orthogonal(a: Vec3, b: Vec3)
    ensures
        a.x * cross_x(a, b) + a.y * cross_y(a, b) + a.z * cross_z(a, b) == 0,
        b.x * cross_x(a, b) + b.y * cross_y(a, b) + b.z * cross_z(a, b) == 0,
{
    let (ax, ay, az) = (a.x as int, a.y as int, a.z as int);
    lemma_triple_product_repeated(ax, ay, az, b.x as int, b.y as int, b.z as int);
}

/// The difference `a - b`, computed without overflow.
pub open spec fn diff(a: Vec3, b: Vec3) -> (int, int, int) {
    (a.x - b.x, a.y - b.y, a.z - b.z)
}

/// The normal `(p1 - p2) x (p1 - p3)` of the plane through three points gives each of the
/// three points the same dot product with it: the plane's offset.
pub proof fn lemma_plane_offset_shared(p1: Vec3, p2: Vec3, p3: Vec3)
    ensures
        ({
            let (ax, ay, az) = diff(p1, p2);
            let (bx, by, bz) = diff(p1, p3);
            let (nx, ny, nz) = (ay * bz - by * az, bx * az - ax * bz, ax * by - bx * ay);
            &&& ax * nx + ay * ny + az * nz == 0
            &&& bx * nx + by * ny + bz * nz == 0
            &&& p2.x * nx + p2.y * ny + p2.z * nz == p1.x * nx + p1.y * ny + p1.z * nz
            &&& p3.x * nx + p3.y * ny + p3.z * nz == p1.x * nx + p1.y * ny + p1.z * nz
        }),
{
    let (ax, ay, az) = diff(p1, p2);
    let (bx, by, bz) = diff(p1, p3);
    lemma_triple_product_repeated(ax, ay, az, bx, by, bz);
    let (nx, ny, nz) = (ay * bz - by * az, bx * az - ax * bz, ax * by - bx * ay);
    assert(ax * nx + ay * ny + az * nz == (p1.x * nx + p1.y * ny + p1.z * nz) - (p2.x * nx + p2.y
        * ny + p2.z * nz)) by (nonlinear_arith)
        requires
            ax == p1.x - p2.x,
            ay == p1.y - p2.y,
            az == p1.z - p2.z,
    ;
    assert(bx * nx + by * ny + bz * nz == (p1.x * nx + p1.y * ny + p1.z * nz) - (p3.x * nx + p3.y
        * ny + p3.z * nz)) by (nonlinear_arith)
        requires
            bx == p1.x - p3.x,
            by == p1.y - p3.y,
            bz == p1.z - p3.z,
    ;
}

} // verus!
