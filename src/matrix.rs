use vstd::prelude::*;

use crate::vector::{div_trunc, fits_i64, SizeError, Vec3};

verus! {

/// The error for matrices whose sizes do not suit an operation.
#[derive(Clone, Copy, Debug, PartialEq, Eq, Structural)]
pub struct SizeMismatch;

/// A matrix of integers, stored as `contents[row][column]`.
#[derive(Clone, Debug)]
pub struct Matrix {
    /// Height, m, of the matrix.
    pub height: usize,
    /// Width, n, of the matrix.
    pub width: usize,
    /// The rows of the matrix; there are `height` of them, each of length `width`.
    pub contents: Vec<Vec<i64>>,
}

/// Whether `s` has `h` rows, each of length `w`.
pub open spec fn is_rect(s: Seq<Seq<i64>>, h: int, w: int) -> bool {
    s.len() == h && forall|i: int| 0 <= i < h ==> #[trigger] s[i].len() == w
}

impl View for Matrix {
    type V = Seq<Seq<i64>>;

    open spec fn view(&self) -> Seq<Seq<i64>> {
        self.contents@.map_values(|r: Vec<i64>| r@)
    }
}

impl Matrix {
    /// The contents agree with the stated height and width.
    pub open spec fn wf(&self) -> bool {
        is_rect(self@, self.height as int, self.width as int)
    }

    /// Creates a new `height` x `width` matrix of zeros.
    pub fn new(height: usize, width: usize) -> (r: Matrix)
        ensures
            r.wf(),
            r.height == height,
            r.width == width,
            forall|i: int, j: int| 0 <= i < height && 0 <= j < width ==> r@[i][j] == 0,
    {
        let mut contents: Vec<Vec<i64>> = Vec::new();
        let mut i: usize = 0;
        while i < height
            invariant
                i <= height,
                contents@.len() == i,
                forall|k: int| 0 <= k < i ==> #[trigger] contents@[k]@.len() == width,
                forall|k: int, j: int| 0 <= k < i && 0 <= j < width ==> contents@[k]@[j] == 0,
            decreases height - i,
        {
            let mut row: Vec<i64> = Vec::new();
            let mut j: usize = 0;
            while j < width
                invariant
                    j <= width,
                    row@.len() == j,
                    forall|t: int| 0 <= t < j ==> row@[t] == 0,
                decreases width - j,
            {
                row.push(0);
                j += 1;
            }
            contents.push(row);
            i += 1;
        }
        Matrix { height, width, contents }
    }

    /// Creates the `height` x `height` identity matrix: ones on the diagonal, zeros elsewhere.
    pub fn ident(height: usize) -> (r: Matrix)
        ensures
            r.wf(),
            r.height == height,
            r.width == height,
            forall|i: int, j: int|
                0 <= i < height && 0 <= j < height
                    ==> r@[i][j] == (if i == j { 1i64 } else { 0i64 }),
    {
        let mut result = Matrix::new(height, height);
        let mut i: usize = 0;
        while i < height
            invariant
                i <= height,
                result.wf(),
                result.height == height,
                result.width == height,
                forall|k: int, j: int|
                    0 <= k < height && 0 <= j < height ==> result@[k][j] == (if k == j && k < i {
                        1i64
                    } else {
                        0i64
                    }),
            decreases height - i,
        {
            result.set(i, i, 1);
            i += 1;
        }
        result
    }

    /// Getter for height.
    pub fn height(&self) -> (r: usize)
        ensures
            r == self.height,
    {
        self.height
    }

    /// Getter for width.
    pub fn width(&self) -> (r: usize)
        ensures
            r == self.width,
    {
        self.width
    }

    /// The element in row `m` and column `n`, both counted from 1.
    pub fn at(&self, m: usize, n: usize) -> (r: &i64)
        requires
            self.wf(),
            1 <= m <= self.height,
            1 <= n <= self.width,
        ensures
            *r == self@[m - 1][n - 1],
    {
        assert(self@[m - 1] == self.contents@[m - 1]@);
        &self.contents[m - 1][n - 1]
    }

    /// The element in row `m` and column `n`, both counted from 1, read through a
    /// mutable borrow of the matrix.
    pub fn mut_at(&mut self, m: usize, n: usize) -> (r: &i64)
        requires
            old(self).wf(),
            1 <= m <= old(self).height,
            1 <= n <= old(self).width,
        ensures
            *r == old(self)@[m - 1][n - 1],
            *final(self) == *old(self),
    {
        assert(self@[m - 1] == self.contents@[m - 1]@);
        &self.contents[m - 1][n - 1]
    }

    /// Replaces the element in row `i` and column `j`, both counted from 0.
    fn set(&mut self, i: usize, j: usize, v: i64)
        requires
            old(self).wf(),
            i < old(self).height,
            j < old(self).width,
        ensures
            final(self).wf(),
            final(self).height == old(self).height,
            final(self).width == old(self).width,
            final(self)@ == old(self)@.update(i as int, old(self)@[i as int].update(j as int, v)),
    {
        assert(old(self)@[i as int] == old(self).contents@[i as int]@);
        let mut row: Vec<i64> = Vec::new();
        self.contents.set_and_swap(i, &mut row);
        row.set(j, v);
        self.contents.set(i, row);
        assert(self@ =~= old(self)@.update(i as int, old(self)@[i as int].update(j as int, v)));
    }
}

/// The sign of the cofactor at a position whose row and column indices add up to `k`.
pub open spec fn checker_sign(k: int) -> int {
    if k % 2 == 0 {
        1
    } else {
        -1
    }
}

impl Matrix {
    /// Builds a matrix from its rows, which must all have the same, non-zero, length.
    ///
    /// An empty list of rows gives the 0 x 0 matrix.
    pub fn from_rows(rows: Vec<Vec<i64>>) -> (r: Result<Matrix, SizeMismatch>)
        ensures
            r is Ok <==> (rows@.len() == 0 || (rows@[0]@.len() > 0 && forall|i: int|
                0 <= i < rows@.len() ==> #[trigger] rows@[i]@.len() == rows@[0]@.len())),
            r is Ok
                ==> r->Ok_0.wf() && r->Ok_0.height == rows@.len() && r->Ok_0@ == rows@.map_values(
                |row: Vec<i64>| row@,
            ),
    {
        let height = rows.len();
        if height == 0 {
            return Ok(Matrix { height: 0, width: 0, contents: rows });
        }
        let width = rows[0].len();
        if width == 0 {
            return Err(SizeMismatch);
        }
        let mut i: usize = 0;
        while i < height
            invariant
                i <= height,
                height == rows@.len(),
                width == rows@[0]@.len(),
                forall|k: int| 0 <= k < i ==> #[trigger] rows@[k]@.len() == width,
            decreases height - i,
        {
            if rows[i].len() != width {
                return Err(SizeMismatch);
            }
            i += 1;
        }
        let m = Matrix { height, width, contents: rows };
        assert forall|k: int| 0 <= k < height implies #[trigger] m@[k].len() == width by {
            assert(m@[k] == rows@[k]@);
        }
        Ok(m)
    }

    /// Whether two matrices have the same size and the same elements.
    pub open spec fn same_as(&self, other: &Matrix) -> bool {
        &&& self.height == other.height
        &&& self.width == other.width
        &&& self.wf()
        &&& other.wf()
        &&& self@ == other@
    }

    /// Transposes a matrix: the `m` x `n` matrix becomes `n` x `m`.
    pub fn transpose(&self) -> (r: Matrix)
        requires
            self.wf(),
        ensures
            r.wf(),
            r.height == self.width,
            r.width == self.height,
            forall|i: int, j: int| 0 <= i < self.width && 0 <= j < self.height
                ==> r@[i][j] == self@[j][i],
    {
        let mut contents: Vec<Vec<i64>> = Vec::new();
        let mut i: usize = 0;
        while i < self.width
            invariant
                self.wf(),
                i <= self.width,
                contents@.len() == i,
                forall|k: int| 0 <= k < i ==> #[trigger] contents@[k]@.len() == self.height,
                forall|k: int, j: int|
                    0 <= k < i && 0 <= j < self.height ==> contents@[k]@[j] == self@[j][k],
            decreases self.width - i,
        {
            let mut row: Vec<i64> = Vec::new();
            let mut j: usize = 0;
            while j < self.height
                invariant
                    self.wf(),
                    i < self.width,
                    j <= self.height,
                    row@.len() == j,
                    forall|t: int| 0 <= t < j ==> row@[t] == self@[t][i as int],
                decreases self.height - j,
            {
                assert(self@[j as int] == self.contents@[j as int]@);
                row.push(self.contents[j][i]);
                j += 1;
            }
            contents.push(row);
            i += 1;
        }
        let r = Matrix { height: self.width, width: self.height, contents };
        assert forall|k: int| 0 <= k < r.height implies #[trigger] r@[k].len() == r.width by {
            assert(r@[k] == r.contents@[k]@);
        }
        assert forall|k: int, j: int| 0 <= k < self.width && 0 <= j < self.height implies r@[k][j]
            == self@[j][k] by {
            assert(r@[k] == r.contents@[k]@);
        }
        r
    }

    /// The matrix of cofactors: each element whose row and column indices add up to an odd
    /// number is negated.
    pub fn cofactors(self) -> (r: Matrix)
        requires
            self.wf(),
            forall|i: int, j: int|
                0 <= i < self.height && 0 <= j < self.width && (i + j) % 2 == 1 ==> self@[i][j]
                    != i64::MIN,
        ensures
            r.wf(),
            r.height == self.height,
            r.width == self.width,
            forall|i: int, j: int|
                0 <= i < self.height && 0 <= j < self.width ==> r@[i][j] == checker_sign(i + j)
                    * self@[i][j],
    {
        let ghost s = self@;
        let ghost (h, w) = (self.height as int, self.width as int);
        let mut result = self;
        let mut i: usize = 0;
        while i < result.height
            invariant
                is_rect(s, h, w),
                forall|k: int, j: int|
                    0 <= k < h && 0 <= j < w && (k + j) % 2 == 1 ==> s[k][j] != i64::MIN,
                result.wf(),
                result.height == h,
                result.width == w,
                i <= h,
                forall|k: int, j: int|
                    0 <= k < h && 0 <= j < w ==> result@[k][j] == (if k < i {
                        checker_sign(k + j) * s[k][j]
                    } else {
                        s[k][j] as int
                    }),
            decreases h - i,
        {
            let mut j: usize = 0;
            while j < result.width
                invariant
                    is_rect(s, h, w),
                    forall|k: int, t: int|
                        0 <= k < h && 0 <= t < w && (k + t) % 2 == 1 ==> s[k][t] != i64::MIN,
                    result.wf(),
                    result.height == h,
                    result.width == w,
                    i < h,
                    j <= w,
                    forall|k: int, t: int|
                        0 <= k < h && 0 <= t < w ==> result@[k][t] == (if k < i || (k == i && t
                            < j) {
                            checker_sign(k + t) * s[k][t]
                        } else {
                            s[k][t] as int
                        }),
                decreases w - j,
            {
                assert((i % 2 + j % 2 == 1) == ((i + j) % 2 == 1));
                assert(result@[i as int][j as int] == s[i as int][j as int]);
                if i % 2 + j % 2 == 1 {
                    assert(result@[i as int] == result.contents@[i as int]@);
                    let v = result.contents[i][j];
                    assert(v == s[i as int][j as int]);
                    assert(s[i as int][j as int] != i64::MIN);
                    let negated: i64 = -v;
                    result.set(i, j, negated);
                    assert(checker_sign(i + j) == -1);
                } else {
                    assert(checker_sign(i + j) == 1);
                }
                assert(result@[i as int][j as int] == checker_sign(i + j) * s[i as int][j as int]);
                j += 1;
            }
            i += 1;
        }
        result
    }
}

impl PartialEq for Matrix {
    /// Two matrices are equal when they have the same size and the same elements.
    fn eq(&self, other: &Matrix) -> (r: bool) {
        if self.width != other.width || self.height != other.height {
            return false;
        }
        if self.contents.len() != self.height || other.contents.len() != self.height {
            return false;
        }
        let mut i: usize = 0;
        while i < self.height
            invariant
                i <= self.height,
                self.width == other.width,
                self.height == other.height,
                self.contents@.len() == self.height,
                other.contents@.len() == self.height,
                forall|k: int| 0 <= k < i ==> #[trigger] self@[k].len() == self.width,
                forall|k: int| 0 <= k < i ==> #[trigger] other@[k].len() == self.width,
                forall|k: int| 0 <= k < i ==> #[trigger] self@[k] == other@[k],
            decreases self.height - i,
        {
            let a = &self.contents[i];
            let b = &other.contents[i];
            assert(self@[i as int] == a@);
            assert(other@[i as int] == b@);
            if a.len() != self.width || b.len() != self.width {
                return false;
            }
            let mut j: usize = 0;
            while j < self.width
                invariant
                    j <= self.width,
                    i < self.height,
                    self.contents@.len() == self.height,
                    other.contents@.len() == self.height,
                    self@[i as int] == a@,
                    other@[i as int] == b@,
                    a@.len() == self.width,
                    b@.len() == self.width,
                    forall|t: int| 0 <= t < j ==> a@[t] == b@[t],
                decreases self.width - j,
            {
                if a[j] != b[j] {
                    assert(self@[i as int][j as int] != other@[i as int][j as int]);
                    return false;
                }
                j += 1;
            }
            assert(a@ =~= b@);
            i += 1;
        }
        assert(self@ =~= other@);
        true
    }
}

impl vstd::std_specs::cmp::PartialEqSpecImpl for Matrix {
    open spec fn obeys_eq_spec() -> bool {
        true
    }

    open spec fn eq_spec(&self, other: &Matrix) -> bool {
        self.same_as(other)
    }
}

impl core::ops::Add for Matrix {
    type Output = Result<Matrix, SizeMismatch>;

    /// Adds each element of a matrix to the corresponding element of another.
    ///
    /// Fails when the heights or the widths differ.
    fn add(self, other: Matrix) -> (r: Result<Matrix, SizeMismatch>)
        ensures
            r is Err <==> (self.height != other.height || self.width != other.width),
            r is Ok ==> r->Ok_0.wf() && r->Ok_0.height == self.height && r->Ok_0.width
                == self.width,
            r is Ok ==> forall|i: int, j: int|
                0 <= i < self.height && 0 <= j < self.width ==> r->Ok_0@[i][j] == self@[i][j]
                    + other@[i][j],
    {
        if self.width != other.width || self.height != other.height {
            return Err(SizeMismatch);
        }
        let mut contents: Vec<Vec<i64>> = Vec::new();
        let mut i: usize = 0;
        while i < self.height
            invariant
                self.wf(),
                other.wf(),
                other.height == self.height,
                other.width == self.width,
                forall|k: int, t: int| 0 <= k < self.height && 0 <= t < self.width
                    ==> fits_i64(self@[k][t] + other@[k][t]),
                i <= self.height,
                contents@.len() == i,
                forall|k: int| 0 <= k < i ==> #[trigger] contents@[k]@.len() == self.width,
                forall|k: int, j: int|
                    0 <= k < i && 0 <= j < self.width
                        ==> contents@[k]@[j] == self@[k][j] + other@[k][j],
            decreases self.height - i,
        {
            let mut row: Vec<i64> = Vec::new();
            let mut j: usize = 0;
            assert(self@[i as int] == self.contents@[i as int]@);
            assert(other@[i as int] == other.contents@[i as int]@);
            while j < self.width
                invariant
                    self.wf(),
                    other.wf(),
                    other.height == self.height,
                    other.width == self.width,
                    forall|k: int, t: int| 0 <= k < self.height && 0 <= t < self.width
                        ==> fits_i64(self@[k][t] + other@[k][t]),
                    other@[i as int] == other.contents@[i as int]@,
                    i < self.height,
                    j <= self.width,
                    self@[i as int] == self.contents@[i as int]@,
                    row@.len() == j,
                    forall|t: int| 0 <= t < j
                        ==> row@[t] == self@[i as int][t] + other@[i as int][t],
                decreases self.width - j,
            {
                row.push(self.contents[i][j] + other.contents[i][j]);
                j += 1;
            }
            contents.push(row);
            i += 1;
        }
        let r = Matrix { height: self.height, width: self.width, contents };
        assert forall|k: int| 0 <= k < r.height implies #[trigger] r@[k].len() == r.width by {
            assert(r@[k] == r.contents@[k]@);
        }
        assert forall|k: int, j: int| 0 <= k < r.height && 0 <= j < r.width implies r@[k][j]
            == self@[k][j] + other@[k][j] by {
            assert(r@[k] == r.contents@[k]@);
        }
        Ok(r)
    }
}

impl vstd::std_specs::ops::AddSpecImpl for Matrix {
    open spec fn obeys_add_spec() -> bool {
        false
    }

    open spec fn add_req(self, other: Matrix) -> bool {
        &&& self.wf()
        &&& other.wf()
        &&& (self.height == other.height && self.width == other.width) ==> forall|i: int, j: int|
            0 <= i < self.height && 0 <= j < self.width ==> fits_i64(self@[i][j] + other@[i][j])
    }

    open spec fn add_spec(self, other: Matrix) -> Result<Matrix, SizeMismatch> {
        arbitrary()
    }
}

impl core::ops::Sub for Matrix {
    type Output = Result<Matrix, SizeMismatch>;

    /// Subtracts each element of another matrix from the corresponding element.
    ///
    /// Fails when the heights or the widths differ.
    fn sub(self, other: Matrix) -> (r: Result<Matrix, SizeMismatch>)
        ensures
            r is Err <==> (self.height != other.height || self.width != other.width),
            r is Ok ==> r->Ok_0.wf() && r->Ok_0.height == self.height && r->Ok_0.width
                == self.width,
            r is Ok ==> forall|i: int, j: int|
                0 <= i < self.height && 0 <= j < self.width ==> r->Ok_0@[i][j] == self@[i][j]
                    - other@[i][j],
    {
        if self.width != other.width || self.height != other.height {
            return Err(SizeMismatch);
        }
        let mut contents: Vec<Vec<i64>> = Vec::new();
        let mut i: usize = 0;
        while i < self.height
            invariant
                self.wf(),
                other.wf(),
                other.height == self.height,
                other.width == self.width,
                forall|k: int, t: int| 0 <= k < self.height && 0 <= t < self.width
                    ==> fits_i64(self@[k][t] - other@[k][t]),
                i <= self.height,
                contents@.len() == i,
                forall|k: int| 0 <= k < i ==> #[trigger] contents@[k]@.len() == self.width,
                forall|k: int, j: int|
                    0 <= k < i && 0 <= j < self.width
                        ==> contents@[k]@[j] == self@[k][j] - other@[k][j],
            decreases self.height - i,
        {
            let mut row: Vec<i64> = Vec::new();
            let mut j: usize = 0;
            assert(self@[i as int] == self.contents@[i as int]@);
            assert(other@[i as int] == other.contents@[i as int]@);
            while j < self.width
                invariant
                    self.wf(),
                    other.wf(),
                    other.height == self.height,
                    other.width == self.width,
                    forall|k: int, t: int| 0 <= k < self.height && 0 <= t < self.width
                        ==> fits_i64(self@[k][t] - other@[k][t]),
                    other@[i as int] == other.contents@[i as int]@,
                    i < self.height,
                    j <= self.width,
                    self@[i as int] == self.contents@[i as int]@,
                    row@.len() == j,
                    forall|t: int| 0 <= t < j
                        ==> row@[t] == self@[i as int][t] - other@[i as int][t],
                decreases self.width - j,
            {
                row.push(self.contents[i][j] - other.contents[i][j]);
                j += 1;
            }
            contents.push(row);
            i += 1;
        }
        let r = Matrix { height: self.height, width: self.width, contents };
        assert forall|k: int| 0 <= k < r.height implies #[trigger] r@[k].len() == r.width by {
            assert(r@[k] == r.contents@[k]@);
        }
        assert forall|k: int, j: int| 0 <= k < r.height && 0 <= j < r.width implies r@[k][j]
            == self@[k][j] - other@[k][j] by {
            assert(r@[k] == r.contents@[k]@);
        }
        Ok(r)
    }
}

impl vstd::std_specs::ops::SubSpecImpl for Matrix {
    open spec fn obeys_sub_spec() -> bool {
        false
    }

    open spec fn sub_req(self, other: Matrix) -> bool {
        &&& self.wf()
        &&& other.wf()
        &&& (self.height == other.height && self.width == other.width) ==> forall|i: int, j: int|
            0 <= i < self.height && 0 <= j < self.width ==> fits_i64(self@[i][j] - other@[i][j])
    }

    open spec fn sub_spec(self, other: Matrix) -> Result<Matrix, SizeMismatch> {
        arbitrary()
    }
}

impl core::ops::Mul<i64> for Matrix {
    type Output = Matrix;

    /// Scales each element of a matrix by a factor.
    fn mul(self, k: i64) -> (r: Matrix)
        ensures
            r.wf(),
            r.height == self.height,
            r.width == self.width,
            forall|i: int, j: int|
                0 <= i < self.height && 0 <= j < self.width ==> r@[i][j] == self@[i][j] * k,
    {
        let mut contents: Vec<Vec<i64>> = Vec::new();
        let mut i: usize = 0;
        while i < self.height
            invariant
                self.wf(),
                forall|a: int, b: int| 0 <= a < self.height && 0 <= b < self.width
                    ==> fits_i64(self@[a][b] * k),
                i <= self.height,
                contents@.len() == i,
                forall|t: int| 0 <= t < i ==> #[trigger] contents@[t]@.len() == self.width,
                forall|t: int, j: int|
                    0 <= t < i && 0 <= j < self.width ==> contents@[t]@[j] == self@[t][j] * k,
            decreases self.height - i,
        {
            let mut row: Vec<i64> = Vec::new();
            let mut j: usize = 0;
            assert(self@[i as int] == self.contents@[i as int]@);
            while j < self.width
                invariant
                    self.wf(),
                    forall|a: int, b: int| 0 <= a < self.height && 0 <= b < self.width
                        ==> fits_i64(self@[a][b] * k),
                    i < self.height,
                    j <= self.width,
                    self@[i as int] == self.contents@[i as int]@,
                    row@.len() == j,
                    forall|t: int| 0 <= t < j ==> row@[t] == self@[i as int][t] * k,
                decreases self.width - j,
            {
                row.push(self.contents[i][j] * k);
                j += 1;
            }
            contents.push(row);
            i += 1;
        }
        let r = Matrix { height: self.height, width: self.width, contents };
        assert forall|t: int| 0 <= t < r.height implies #[trigger] r@[t].len() == r.width by {
            assert(r@[t] == r.contents@[t]@);
        }
        assert forall|t: int, j: int| 0 <= t < r.height && 0 <= j < r.width implies r@[t][j]
            == self@[t][j] * k by {
            assert(r@[t] == r.contents@[t]@);
        }
        r
    }
}

impl vstd::std_specs::ops::MulSpecImpl<i64> for Matrix {
    open spec fn obeys_mul_spec() -> bool {
        false
    }

    open spec fn mul_req(self, k: i64) -> bool {
        &&& self.wf()
        &&& forall|i: int, j: int|
            0 <= i < self.height && 0 <= j < self.width ==> fits_i64(self@[i][j] * k)
    }

    open spec fn mul_spec(self, k: i64) -> Matrix {
        arbitrary()
    }
}

impl core::ops::Div<i64> for Matrix {
    type Output = Matrix;

    /// Divides each element of a matrix by a factor, rounding toward zero.
    fn div(self, k: i64) -> (r: Matrix)
        ensures
            r.wf(),
            r.height == self.height,
            r.width == self.width,
            forall|i: int, j: int|
                0 <= i < self.height && 0 <= j < self.width
                    ==> r@[i][j] == div_trunc(self@[i][j] as int, k as int) as i64,
    {
        let mut contents: Vec<Vec<i64>> = Vec::new();
        let mut i: usize = 0;
        while i < self.height
            invariant
                self.wf(),
                k != 0,
                k == -1
                    ==> forall|a: int, b: int|
                    0 <= a < self.height && 0 <= b < self.width ==> self@[a][b] != i64::MIN,
                i <= self.height,
                contents@.len() == i,
                forall|t: int| 0 <= t < i ==> #[trigger] contents@[t]@.len() == self.width,
                forall|t: int, j: int|
                    0 <= t < i && 0 <= j < self.width
                        ==> contents@[t]@[j] == div_trunc(self@[t][j] as int, k as int) as i64,
            decreases self.height - i,
        {
            let mut row: Vec<i64> = Vec::new();
            let mut j: usize = 0;
            assert(self@[i as int] == self.contents@[i as int]@);
            while j < self.width
                invariant
                    self.wf(),
                    k != 0,
                k == -1
                    ==> forall|a: int, b: int|
                    0 <= a < self.height && 0 <= b < self.width ==> self@[a][b] != i64::MIN,
                    i < self.height,
                    j <= self.width,
                    self@[i as int] == self.contents@[i as int]@,
                    row@.len() == j,
                    forall|t: int| 0 <= t < j
                        ==> row@[t] == div_trunc(self@[i as int][t] as int, k as int) as i64,
                decreases self.width - j,
            {
                row.push(self.contents[i][j] / k);
                j += 1;
            }
            contents.push(row);
            i += 1;
        }
        let r = Matrix { height: self.height, width: self.width, contents };
        assert forall|t: int| 0 <= t < r.height implies #[trigger] r@[t].len() == r.width by {
            assert(r@[t] == r.contents@[t]@);
        }
        assert forall|t: int, j: int| 0 <= t < r.height && 0 <= j < r.width implies r@[t][j]
            == div_trunc(self@[t][j] as int, k as int) as i64 by {
            assert(r@[t] == r.contents@[t]@);
        }
        r
    }
}

impl vstd::std_specs::ops::DivSpecImpl<i64> for Matrix {
    open spec fn obeys_div_spec() -> bool {
        false
    }

    open spec fn div_req(self, k: i64) -> bool {
        &&& self.wf()
        &&& k != 0
        &&& k == -1 ==> forall|i: int, j: int|
            0 <= i < self.height && 0 <= j < self.width ==> self@[i][j] != i64::MIN
    }

    open spec fn div_spec(self, k: i64) -> Matrix {
        arbitrary()
    }
}

/// The sum of the first `n` products of row `i` of `a` with column `j` of `b`.
pub open spec fn prod_sum(a: Seq<Seq<i64>>, b: Seq<Seq<i64>>, i: int, j: int, n: int) -> int
    decreases n,
{
    if n <= 0 {
        0
    } else {
        prod_sum(a, b, i, j, n - 1) + a[i][n - 1] * b[n - 1][j]
    }
}

/// The matrix product of the `h` x `n` matrix `a` and the `n` x `w` matrix `b`.
pub open spec fn mat_mul(a: Seq<Seq<i64>>, b: Seq<Seq<i64>>, h: int, n: int, w: int) -> Seq<
    Seq<i64>,
> {
    Seq::new(h as nat, |i: int| Seq::new(w as nat, |j: int| prod_sum(a, b, i, j, n) as i64))
}

/// Every product and partial sum in the matrix product fits in an `i64`.
pub open spec fn mul_fits(a: Seq<Seq<i64>>, b: Seq<Seq<i64>>, h: int, n: int, w: int) -> bool {
    forall|i: int, j: int, k: int|
        0 <= i < h && 0 <= j < w && 0 <= k < n ==> fits_i64(#[trigger] (a[i][k] * b[k][j]))
            && fits_i64(prod_sum(a, b, i, j, k + 1))
}

impl core::ops::Mul<Matrix> for Matrix {
    type Output = Result<Matrix, SizeMismatch>;

    /// Matrix multiplication: an `m1` x `n1` matrix times an `m2` x `n2` matrix gives an
    /// `m1` x `n2` matrix.
    ///
    /// Fails when `n1` differs from `m2`.
    fn mul(self, other: Matrix) -> (r: Result<Matrix, SizeMismatch>)
        ensures
            r is Err <==> self.width != other.height,
            r is Ok ==> r->Ok_0.wf() && r->Ok_0.height == self.height && r->Ok_0.width
                == other.width,
            r is Ok ==> r->Ok_0@ == mat_mul(
                self@,
                other@,
                self.height as int,
                self.width as int,
                other.width as int,
            ),
    {
        if self.width != other.height {
            return Err(SizeMismatch);
        }
        let ghost (h, n, w) = (self.height as int, self.width as int, other.width as int);
        let mut contents: Vec<Vec<i64>> = Vec::new();
        let mut i: usize = 0;
        while i < self.height
            invariant
                self.wf(),
                other.wf(),
                self.width == other.height,
                h == self.height && n == self.width && w == other.width,
                mul_fits(self@, other@, h, n, w),
                i <= h,
                contents@.len() == i,
                forall|t: int| 0 <= t < i ==> #[trigger] contents@[t]@.len() == w,
                forall|t: int, j: int|
                    0 <= t < i && 0 <= j < w
                        ==> contents@[t]@[j] == prod_sum(self@, other@, t, j, n),
            decreases h - i,
        {
            let mut row: Vec<i64> = Vec::new();
            let mut j: usize = 0;
            assert(self@[i as int] == self.contents@[i as int]@);
            while j < other.width
                invariant
                    self.wf(),
                    other.wf(),
                    self.width == other.height,
                    h == self.height && n == self.width && w == other.width,
                    mul_fits(self@, other@, h, n, w),
                    i < h,
                    j <= w,
                    self@[i as int] == self.contents@[i as int]@,
                    row@.len() == j,
                    forall|t: int| 0 <= t < j
                        ==> row@[t] == prod_sum(self@, other@, i as int, t, n),
                decreases w - j,
            {
                let mut acc: i64 = 0;
                let mut k: usize = 0;
                while k < self.width
                    invariant
                        self.wf(),
                        other.wf(),
                        self.width == other.height,
                        h == self.height && n == self.width && w == other.width,
                        mul_fits(self@, other@, h, n, w),
                        i < h,
                        j < w,
                        k <= n,
                        self@[i as int] == self.contents@[i as int]@,
                        acc == prod_sum(self@, other@, i as int, j as int, k as int),
                    decreases n - k,
                {
                    assert(other@[k as int] == other.contents@[k as int]@);
                    assert(fits_i64(self@[i as int][k as int] * other@[k as int][j as int]));
                    acc = acc + self.contents[i][k] * other.contents[k][j];
                    k += 1;
                }
                row.push(acc);
                j += 1;
            }
            contents.push(row);
            i += 1;
        }
        let r = Matrix { height: self.height, width: other.width, contents };
        assert forall|t: int| 0 <= t < r.height implies #[trigger] r@[t].len() == r.width by {
            assert(r@[t] == r.contents@[t]@);
        }
        assert forall|t: int| 0 <= t < h implies #[trigger] r@[t] =~= mat_mul(self@, other@, h, n, w)[t]
            by {
            assert(r@[t] == r.contents@[t]@);
        }
        assert(r@ =~= mat_mul(self@, other@, h, n, w));
        Ok(r)
    }
}

impl vstd::std_specs::ops::MulSpecImpl<Matrix> for Matrix {
    open spec fn obeys_mul_spec() -> bool {
        false
    }

    open spec fn mul_req(self, other: Matrix) -> bool {
        &&& self.wf()
        &&& other.wf()
        &&& self.width == other.height ==> mul_fits(
            self@,
            other@,
            self.height as int,
            self.width as int,
            other.width as int,
        )
    }

    open spec fn mul_spec(self, other: Matrix) -> Result<Matrix, SizeMismatch> {
        arbitrary()
    }
}

/// The index in the full matrix of index `i` of a minor that leaves out index `r`.
pub open spec fn skip(i: int, r: int) -> int {
    if i < r {
        i
    } else {
        i + 1
    }
}

/// The row `row` without its element at index `c`.
pub open spec fn drop_col(row: Seq<i64>, c: int) -> Seq<i64> {
    Seq::new((row.len() - 1) as nat, |j: int| row[skip(j, c)])
}

/// The minor of `s`: the matrix without row `r` and column `c` (both counted from 0).
pub open spec fn minor_of(s: Seq<Seq<i64>>, r: int, c: int) -> Seq<Seq<i64>> {
    Seq::new((s.len() - 1) as nat, |i: int| drop_col(s[skip(i, r)], c))
}

/// The determinant of a square matrix, by cofactor expansion along the first row.
///
/// A 1 x 1 matrix has its element as determinant, and the empty matrix has 0.
pub open spec fn det_of(s: Seq<Seq<i64>>) -> int
    decreases s.len(), s.len() + 1,
{
    if s.len() == 1 {
        s[0][0] as int
    } else {
        det_terms(s, s.len() as int)
    }
}

/// The sum of the first `k` terms of the cofactor expansion of `s` along its first row.
pub open spec fn det_terms(s: Seq<Seq<i64>>, k: int) -> int
    decreases s.len(), k,
{
    if k <= 0 || k > s.len() {
        0
    } else {
        det_terms(s, k - 1) + checker_sign(k - 1) * det_of(minor_of(s, 0, k - 1)) * s[0][k - 1]
    }
}

/// The magnitude of `x`, or 1 where `x` is 0.
pub open spec fn abs_or_one(x: int) -> int {
    if x > 0 {
        x
    } else if x < 0 {
        -x
    } else {
        1
    }
}

/// A bound on the magnitude of every value that the cofactor expansion of `s` computes:
/// the same expansion over the magnitudes of the elements, with each 0 of the first row
/// counted as 1 (the expansion still evaluates the minor that it multiplies).
pub open spec fn expansion_bound(s: Seq<Seq<i64>>) -> int
    decreases s.len(), s.len() + 1,
{
    if s.len() == 1 {
        abs_or_one(s[0][0] as int)
    } else {
        bound_terms(s, s.len() as int)
    }
}

/// The sum of the first `k` terms of `expansion_bound`.
pub open spec fn bound_terms(s: Seq<Seq<i64>>, k: int) -> int
    decreases s.len(), k,
{
    if k <= 0 || k > s.len() {
        0
    } else {
        bound_terms(s, k - 1) + expansion_bound(minor_of(s, 0, k - 1)) * abs_or_one(
            s[0][k - 1] as int,
        )
    }
}

/// A term `d * a` of the expansion, with `d` bounded by `b`, is bounded by the matching term
/// of the bound.
proof fn lemma_term_bound(d: int, b: int, a: int)
    requires
        -b <= d <= b,
    ensures
        -(b * abs_or_one(a)) <= d * a <= b * abs_or_one(a),
        -(b * abs_or_one(a)) <= -(d * a) <= b * abs_or_one(a),
        b * abs_or_one(a) >= b,
{
    if a > 0 {
        assert(-(b * a) <= d * a <= b * a) by (nonlinear_arith)
            requires
                -b <= d <= b,
                a > 0,
        ;
    } else if a < 0 {
        assert(-(b * -a) <= d * a <= b * -a) by (nonlinear_arith)
            requires
                -b <= d <= b,
                a < 0,
        ;
    }
    assert(b * abs_or_one(a) >= b) by (nonlinear_arith)
        requires
            b >= 0,
            abs_or_one(a) >= 1,
    ;
}

/// The cofactor expansion of `s` never exceeds `expansion_bound(s)` in magnitude.
proof fn lemma_det_bounded(s: Seq<Seq<i64>>)
    ensures
        expansion_bound(s) >= 0,
        -expansion_bound(s) <= det_of(s) <= expansion_bound(s),
    decreases s.len(), s.len() + 1,
{
    if s.len() != 1 {
        lemma_terms_bounded(s, s.len() as int);
    }
}

/// Each partial sum of the expansion is bounded by the matching partial sum of the bound,
/// and each minor's bound by the partial sum that contains its term.
proof fn lemma_terms_bounded(s: Seq<Seq<i64>>, k: int)
    ensures
        bound_terms(s, k) >= 0,
        -bound_terms(s, k) <= det_terms(s, k) <= bound_terms(s, k),
        forall|i: int|
            0 <= i < k && k <= s.len() ==> expansion_bound(#[trigger] minor_of(s, 0, i))
                <= bound_terms(s, k),
        forall|j: int| 0 <= j <= k && k <= s.len()
            ==> bound_terms(s, j) <= #[trigger] bound_terms(s, k),
    decreases s.len(), k,
{
    if 0 < k <= s.len() {
        lemma_terms_bounded(s, k - 1);
        let m = minor_of(s, 0, k - 1);
        lemma_det_bounded(m);
        let a = s[0][k - 1] as int;
        let d = det_of(m);
        let b = expansion_bound(m);
        lemma_term_bound(d, b, a);
        assert(checker_sign(k - 1) * d * a == d * a || checker_sign(k - 1) * d * a == -(d * a))
            by (nonlinear_arith)
            requires
                checker_sign(k - 1) == 1 || checker_sign(k - 1) == -1,
        ;
    }
}

impl Matrix {
    /// The minor of a matrix: the matrix without row `m` and column `n`, both counted from 1.
    pub fn minor(&self, m: usize, n: usize) -> (r: Matrix)
        requires
            self.wf(),
            1 <= m <= self.height,
            1 <= n <= self.width,
        ensures
            r.wf(),
            r.height == self.height - 1,
            r.width == self.width - 1,
            r@ == minor_of(self@, m - 1, n - 1),
    {
        let ghost (rr, cc) = (m - 1, n - 1);
        let mut contents: Vec<Vec<i64>> = Vec::new();
        let mut i: usize = 0;
        while i < self.height
            invariant
                self.wf(),
                1 <= m <= self.height,
                1 <= n <= self.width,
                rr == m - 1 && cc == n - 1,
                i <= self.height,
                contents@.len() == (if i <= rr { i as int } else { i - 1 }),
                forall|t: int|
                    0 <= t < contents@.len() ==> #[trigger] contents@[t]@ == drop_col(
                        self@[skip(t, rr)],
                        cc,
                    ),
            decreases self.height - i,
        {
            if i != m - 1 {
                assert(self@[i as int] == self.contents@[i as int]@);
                let mut row: Vec<i64> = Vec::new();
                let mut j: usize = 0;
                while j < self.width
                    invariant
                        self.wf(),
                        1 <= n <= self.width,
                        cc == n - 1,
                        i < self.height,
                        self@[i as int] == self.contents@[i as int]@,
                        j <= self.width,
                        row@.len() == (if j <= cc { j as int } else { j - 1 }),
                        forall|t: int| 0 <= t < row@.len()
                            ==> row@[t] == self@[i as int][skip(t, cc)],
                    decreases self.width - j,
                {
                    if j != n - 1 {
                        row.push(self.contents[i][j]);
                    }
                    j += 1;
                }
                assert(row@ =~= drop_col(self@[i as int], cc));
                contents.push(row);
            }
            i += 1;
        }
        let r = Matrix { height: self.height - 1, width: self.width - 1, contents };
        assert forall|t: int| 0 <= t < r.height implies #[trigger] r@[t] == drop_col(
            self@[skip(t, rr)],
            cc,
        ) by {
            assert(r@[t] == r.contents@[t]@);
        }
        assert(r@ =~= minor_of(self@, rr, cc));
        r
    }

    /// The determinant of a square matrix, by cofactor expansion along the first row.
    ///
    /// Fails when the matrix is not square.
    pub fn det(&self) -> (r: Result<i64, SizeMismatch>)
        requires
            self.wf(),
            self.height == self.width ==> expansion_bound(self@) <= i64::MAX,
        ensures
            r is Err <==> self.height != self.width,
            r is Ok ==> r->Ok_0 == det_of(self@),
        decreases self.height,
    {
        if self.height != self.width {
            return Err(SizeMismatch);
        }
        if self.height == 1 {
            assert(self@[0] == self.contents@[0]@);
            return Ok(self.contents[0][0]);
        }
        let ghost s = self@;
        let ghost n = self.width as int;
        proof {
            lemma_terms_bounded(s, n);
        }
        let mut det: i64 = 0;
        let mut i: usize = 0;
        while i < self.width
            invariant
                self.wf(),
                s == self@,
                n == self.width && n == self.height && n != 1,
                expansion_bound(s) <= i64::MAX,
                expansion_bound(s) == bound_terms(s, n),
                forall|t: int| 0 <= t < n
                    ==> expansion_bound(#[trigger] minor_of(s, 0, t)) <= bound_terms(s, n),
                forall|j: int| 0 <= j <= n ==> bound_terms(s, j) <= #[trigger] bound_terms(s, n),
                i <= n,
                det == det_terms(s, i as int),
            decreases n - i,
        {
            proof {
                lemma_terms_bounded(s, i + 1);
            }
            assert(s[0] == self.contents@[0]@);
            let m = self.minor(1, i + 1);
            let md = m.det().unwrap();
            let sign: i64 = if i % 2 == 0 {
                1
            } else {
                -1
            };
            let ghost mb = expansion_bound(minor_of(s, 0, i as int));
            proof {
                assert(m@ == minor_of(s, 0, i as int));
                lemma_det_bounded(m@);
                lemma_terms_bounded(s, i as int);
                assert(bound_terms(s, i + 1) == bound_terms(s, i as int) + mb * abs_or_one(
                    s[0][i as int] as int,
                ));
                assert(bound_terms(s, i + 1) <= bound_terms(s, n));
                assert(mb <= i64::MAX);
                lemma_term_bound(md as int, mb, s[0][i as int] as int);
                assert(-(mb * abs_or_one(s[0][i as int] as int)) <= md * sign * s[0][i as int]
                    <= mb * abs_or_one(s[0][i as int] as int)) by (nonlinear_arith)
                    requires
                        -(mb * abs_or_one(s[0][i as int] as int)) <= md * s[0][i as int]
                            <= mb * abs_or_one(s[0][i as int] as int),
                        sign == 1 || sign == -1,
                ;
                assert(sign == checker_sign(i as int));
                assert(md * sign * s[0][i as int] == checker_sign(i as int) * md * s[0][i as int])
                    by (nonlinear_arith)
                    requires sign == checker_sign(i as int);
            }
            det = det + md * sign * self.contents[0][i];
            i += 1;
        }
        Ok(det)
    }
}

/// Every minor of the square matrix `s` has an expansion that fits in an `i64`.
pub open spec fn minors_fit(s: Seq<Seq<i64>>) -> bool {
    forall|i: int, j: int|
        0 <= i < s.len() && 0 <= j < s.len() ==> expansion_bound(#[trigger] minor_of(s, i, j))
            <= i64::MAX
}

impl Matrix {
    /// The matrix of minors: each element becomes the determinant of its minor.
    ///
    /// Fails when the matrix is not square.
    pub fn minors(&self) -> (r: Result<Matrix, SizeMismatch>)
        requires
            self.wf(),
            self.height == self.width ==> minors_fit(self@),
        ensures
            r is Err <==> self.height != self.width,
            r is Ok ==> r->Ok_0.wf() && r->Ok_0.height == self.height && r->Ok_0.width
                == self.width,
            r is Ok ==> forall|i: int, j: int|
                0 <= i < self.height && 0 <= j < self.width ==> r->Ok_0@[i][j] == det_of(
                    minor_of(self@, i, j),
                ),
    {
        if self.height != self.width {
            return Err(SizeMismatch);
        }
        let mut contents: Vec<Vec<i64>> = Vec::new();
        let mut i: usize = 0;
        while i < self.height
            invariant
                self.wf(),
                self.height == self.width,
                minors_fit(self@),
                i <= self.height,
                contents@.len() == i,
                forall|t: int| 0 <= t < i ==> #[trigger] contents@[t]@.len() == self.width,
                forall|t: int, j: int|
                    0 <= t < i && 0 <= j < self.width ==> contents@[t]@[j] == det_of(
                        minor_of(self@, t, j),
                    ),
            decreases self.height - i,
        {
            let mut row: Vec<i64> = Vec::new();
            let mut j: usize = 0;
            while j < self.width
                invariant
                    self.wf(),
                    self.height == self.width,
                    minors_fit(self@),
                    i < self.height,
                    j <= self.width,
                    row@.len() == j,
                    forall|t: int| 0 <= t < j ==> row@[t] == det_of(minor_of(self@, i as int, t)),
                decreases self.width - j,
            {
                let m = self.minor(i + 1, j + 1);
                assert(m@ == minor_of(self@, i as int, j as int));
                let d = m.det().unwrap();
                row.push(d);
                j += 1;
            }
            contents.push(row);
            i += 1;
        }
        let r = Matrix { height: self.height, width: self.width, contents };
        assert forall|t: int| 0 <= t < r.height implies #[trigger] r@[t].len() == r.width by {
            assert(r@[t] == r.contents@[t]@);
        }
        assert forall|t: int, j: int| 0 <= t < r.height && 0 <= j < r.width implies r@[t][j]
            == det_of(minor_of(self@, t, j)) by {
            assert(r@[t] == r.contents@[t]@);
        }
        Ok(r)
    }

    /// The inverse of a square matrix: the transposed matrix of cofactors divided by the
    /// determinant, each element rounded toward zero.
    ///
    /// Fails when the matrix is not square, or when its determinant is zero.
    pub fn inverse(&self) -> (r: Result<Matrix, SizeMismatch>)
        requires
            self.wf(),
            self.height == self.width ==> expansion_bound(self@) <= i64::MAX && minors_fit(
                self@,
            ),
        ensures
            r is Err <==> (self.height != self.width || det_of(self@) == 0),
            r is Ok ==> r->Ok_0.wf() && r->Ok_0.height == self.height && r->Ok_0.width
                == self.width,
            r is Ok ==> forall|i: int, j: int|
                0 <= i < self.height && 0 <= j < self.width ==> r->Ok_0@[i][j] == div_trunc(
                    checker_sign(i + j) * det_of(minor_of(self@, j, i)),
                    det_of(self@),
                ) as i64,
    {
        if self.height != self.width {
            return Err(SizeMismatch);
        }
        let det = self.det().unwrap();
        if det == 0 {
            return Err(SizeMismatch);
        }
        let minors = self.minors().unwrap();
        assert forall|i: int, j: int|
            0 <= i < self.height && 0 <= j < self.width implies minors@[i][j] != i64::MIN by {
            lemma_det_bounded(minor_of(self@, i, j));
        }
        let cofactors = minors.cofactors();
        let adjugate = cofactors.transpose();
        assert forall|i: int, j: int|
            0 <= i < self.height && 0 <= j < self.width implies adjugate@[i][j] != i64::MIN by {
            lemma_det_bounded(minor_of(self@, j, i));
        }
        let r = adjugate / det;
        Ok(r)
    }
}

/// Whether an angle in degrees is a whole number of quarter turns.
pub open spec fn is_quarter_turn(degrees: int) -> bool {
    degrees % 90 == 0
}

/// The sine of a whole number of quarter turns, given in degrees.
pub open spec fn quarter_sin(degrees: int) -> int {
    let q = (degrees / 90) % 4;
    if q == 1 {
        1
    } else if q == 3 {
        -1
    } else {
        0
    }
}

/// The cosine of a whole number of quarter turns, given in degrees.
pub open spec fn quarter_cos(degrees: int) -> int {
    let q = (degrees / 90) % 4;
    if q == 0 {
        1
    } else if q == 2 {
        -1
    } else {
        0
    }
}

/// The clockwise rotation about the z axis with the given sine and cosine.
pub open spec fn rot_z(s: int, c: int) -> Seq<Seq<i64>> {
    seq![seq![c as i64, s as i64, 0], seq![-s as i64, c as i64, 0], seq![0, 0, 1]]
}

/// The clockwise rotation about the y axis with the given sine and cosine.
pub open spec fn rot_y(s: int, c: int) -> Seq<Seq<i64>> {
    seq![seq![c as i64, 0, s as i64], seq![0, 1, 0], seq![-s as i64, 0, c as i64]]
}

/// The clockwise rotation about the x axis with the given sine and cosine.
pub open spec fn rot_x(s: int, c: int) -> Seq<Seq<i64>> {
    seq![seq![1, 0, 0], seq![0, c as i64, s as i64], seq![0, -s as i64, c as i64]]
}

/// The rotation by `d.x`, `d.y` and `d.z` degrees about the x, y and z axes: `Rz * Ry * Rx`.
pub open spec fn rotation_of(d: Vec3) -> Seq<Seq<i64>> {
    mat_mul(
        mat_mul(
            rot_z(quarter_sin(d.z as int), quarter_cos(d.z as int)),
            rot_y(quarter_sin(d.y as int), quarter_cos(d.y as int)),
            3,
            3,
            3,
        ),
        rot_x(quarter_sin(d.x as int), quarter_cos(d.x as int)),
        3,
        3,
        3,
    )
}

/// Every element of `s`, an `h` x `w` matrix, is at most `bound` in magnitude.
pub open spec fn bounded_by(s: Seq<Seq<i64>>, h: int, w: int, bound: int) -> bool {
    forall|i: int, j: int| 0 <= i < h && 0 <= j < w ==> -bound <= #[trigger] s[i][j] <= bound
}

/// Each partial sum of a matrix product is bounded by its number of terms times the bounds
/// of the two factors.
proof fn lemma_prod_sum_bounded(
    a: Seq<Seq<i64>>,
    b: Seq<Seq<i64>>,
    i: int,
    j: int,
    k: int,
    n: int,
    ba: int,
    bb: int,
)
    requires
        0 <= i && 0 <= j,
        0 <= k <= n,
        forall|t: int| 0 <= t < n ==> -ba <= #[trigger] a[i][t] <= ba,
        forall|t: int| 0 <= t < n ==> -bb <= #[trigger] b[t][j] <= bb,
        ba >= 0,
        bb >= 0,
    ensures
        -(k * (ba * bb)) <= prod_sum(a, b, i, j, k) <= k * (ba * bb),
    decreases k,
{
    if k > 0 {
        lemma_prod_sum_bounded(a, b, i, j, k - 1, n, ba, bb);
        let (x, y) = (a[i][k - 1] as int, b[k - 1][j] as int);
        assert(-(ba * bb) <= x * y <= ba * bb) by (nonlinear_arith)
            requires
                -ba <= x <= ba,
                -bb <= y <= bb,
        ;
        assert(k * (ba * bb) == (k - 1) * (ba * bb) + ba * bb) by (nonlinear_arith);
    }
}

/// A product of small matrices has small elements, and computing it cannot overflow.
proof fn lemma_small_product(a: Seq<Seq<i64>>, b: Seq<Seq<i64>>, n: int, ba: int, bb: int)
    requires
        n == 3,
        0 <= ba <= 3,
        0 <= bb <= 1,
        bounded_by(a, n, n, ba),
        bounded_by(b, n, n, bb),
    ensures
        mul_fits(a, b, n, n, n),
        bounded_by(mat_mul(a, b, n, n, n), n, n, n * ba * bb),
{
    assert forall|i: int, j: int, k: int| 0 <= i < n && 0 <= j < n && 0 <= k < n implies fits_i64(
        #[trigger] (a[i][k] * b[k][j]),
    ) && fits_i64(prod_sum(a, b, i, j, k + 1)) by {
        assert forall|t: int| 0 <= t < n implies -ba <= #[trigger] a[i][t] <= ba by {}
        assert forall|t: int| 0 <= t < n implies -bb <= #[trigger] b[t][j] <= bb by {}
        lemma_prod_sum_bounded(a, b, i, j, k + 1, n, ba, bb);
        let (x, y) = (a[i][k] as int, b[k][j] as int);
        assert(-(ba * bb) <= x * y <= ba * bb) by (nonlinear_arith)
            requires
                -ba <= x <= ba,
                -bb <= y <= bb,
        ;
        assert((k + 1) * (ba * bb) <= 9) by (nonlinear_arith)
            requires
                0 <= k < 3,
                0 <= ba <= 3,
                0 <= bb <= 1,
        ;
        assert(ba * bb <= 3) by (nonlinear_arith)
            requires
                0 <= ba <= 3,
                0 <= bb <= 1,
        ;
    }
    assert forall|i: int, j: int| 0 <= i < n && 0 <= j < n implies -(n * ba * bb)
        <= #[trigger] mat_mul(a, b, n, n, n)[i][j] <= n * ba * bb by {
        lemma_prod_sum_bounded(a, b, i, j, n, n, ba, bb);
        assert(n * (ba * bb) <= 9) by (nonlinear_arith)
            requires
                n == 3,
                0 <= ba <= 3,
                0 <= bb <= 1,
        ;
        assert(n * (ba * bb) == n * ba * bb) by (nonlinear_arith);
    }
}

/// The sine and cosine of a whole number of quarter turns, given in degrees.
fn quarter_sin_cos(degrees: i64) -> (r: (i64, i64))
    requires
        is_quarter_turn(degrees as int),
    ensures
        r.0 == quarter_sin(degrees as int),
        r.1 == quarter_cos(degrees as int),
{
    let turns = degrees / 90;
    let mut q = turns % 4;
    if q < 0 {
        q = q + 4;
    }
    assert(q == (degrees / 90) % 4);
    if q == 0 {
        (0, 1)
    } else if q == 1 {
        (1, 0)
    } else if q == 2 {
        (0, -1)
    } else {
        (-1, 0)
    }
}

impl Matrix {
    /// The rotation by `rotation.x`, `rotation.y` and `rotation.z` degrees, clockwise about
    /// the x, y and z axes, as the product `Rz * Ry * Rx`.
    ///
    /// Each angle is a whole number of quarter turns, whose sine and cosine are integers.
    pub fn rotation(rotation: &Vec3) -> (r: Matrix)
        requires
            is_quarter_turn(rotation.x as int),
            is_quarter_turn(rotation.y as int),
            is_quarter_turn(rotation.z as int),
        ensures
            r.wf(),
            r.height == 3,
            r.width == 3,
            r@ == rotation_of(*rotation),
    {
        let (sx, cx) = quarter_sin_cos(rotation.x);
        let (sy, cy) = quarter_sin_cos(rotation.y);
        let (sz, cz) = quarter_sin_cos(rotation.z);
        let (nsx, nsy, nsz) = (-sx, -sy, -sz);
        let rz = Matrix {
            height: 3,
            width: 3,
            contents: vec![vec![cz, sz, 0], vec![nsz, cz, 0], vec![0, 0, 1]],
        };
        let ry = Matrix {
            height: 3,
            width: 3,
            contents: vec![vec![cy, 0, sy], vec![0, 1, 0], vec![nsy, 0, cy]],
        };
        let rx = Matrix {
            height: 3,
            width: 3,
            contents: vec![vec![1, 0, 0], vec![0, cx, sx], vec![0, nsx, cx]],
        };
        assert(rz@ =~~= rot_z(sz as int, cz as int));
        assert(ry@ =~~= rot_y(sy as int, cy as int));
        assert(rx@ =~~= rot_x(sx as int, cx as int));
        proof {
            lemma_small_product(rz@, ry@, 3, 1, 1);
        }
        let zy = (rz * ry).unwrap();
        proof {
            lemma_small_product(zy@, rx@, 3, 3, 1);
        }
        (zy * rx).unwrap()
    }
}

impl TryFrom<Matrix> for Vec3 {
    type Error = SizeError;

    /// Turns a 3 x 1 matrix into a vector.
    fn try_from(m: Matrix) -> (r: Result<Vec3, SizeError>) {
        if m.width != 1 || m.height != 3 || m.contents.len() != 3 {
            return Err(SizeError);
        }
        if m.contents[0].len() != 1 || m.contents[1].len() != 1 || m.contents[2].len() != 1 {
            return Err(SizeError);
        }
        let r = Vec3 { x: m.contents[0][0], y: m.contents[1][0], z: m.contents[2][0] };
        assert(m@[0] == m.contents@[0]@ && m@[1] == m.contents@[1]@ && m@[2] == m.contents@[2]@);
        Ok(r)
    }
}

impl vstd::std_specs::convert::TryFromSpecImpl<Matrix> for Vec3 {
    open spec fn obeys_try_from_spec() -> bool {
        true
    }

    open spec fn try_from_spec(m: Matrix) -> Result<Vec3, SizeError> {
        if m.width == 1 && m.height == 3 && m.wf() {
            Ok(Vec3 { x: m@[0][0], y: m@[1][0], z: m@[2][0] })
        } else {
            Err(SizeError)
        }
    }
}

} // verus!
