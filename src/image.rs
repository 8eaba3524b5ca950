use vstd::prelude::*;

verus! {

/// A grid of pixels, stored column by column: `data[x][y]`.
pub struct Image<P> {
    /// The number of columns.
    pub width: usize,
    /// The number of rows.
    pub height: usize,
    /// The columns of the image; there are `width` of them, each of length `height`.
    pub data: Vec<Vec<P>>,
}

/// The result of placing each column of `batches` in turn, keyed by its column index.
pub open spec fn place_all<P>(columns: Seq<Seq<P>>, batches: Seq<(usize, Seq<P>)>) -> Seq<Seq<P>>
    decreases batches.len(),
{
    if batches.len() == 0 {
        columns
    } else {
        place_all(columns, batches.drop_last()).update(
            batches.last().0 as int,
            batches.last().1,
        )
    }
}

/// No two batches are keyed by the same column.
pub open spec fn distinct_keys<P>(batches: Seq<(usize, Seq<P>)>) -> bool {
    forall|i: int, j: int| 0 <= i < j < batches.len() ==> batches[i].0 != batches[j].0
}

impl<P> Image<P> {
    /// The columns of the image, as sequences of pixels.
    pub open spec fn columns(&self) -> Seq<Seq<P>> {
        self.data@.map_values(|c: Vec<P>| c@)
    }

    /// The data holds `width` columns of `height` pixels.
    pub open spec fn wf(&self) -> bool {
        &&& self.data@.len() == self.width
        &&& forall|x: int| 0 <= x < self.width ==> #[trigger] self.data@[x]@.len() == self.height
    }

    /// Replaces column `x` with the pixels of `column`, from top to bottom.
    pub fn place_column(&mut self, x: usize, column: Vec<P>)
        requires
            old(self).wf(),
            x < old(self).width,
            column@.len() == old(self).height,
        ensures
            final(self).wf(),
            final(self).width == old(self).width,
            final(self).height == old(self).height,
            final(self).columns() == old(self).columns().update(x as int, column@),
    {
        let ghost c = column@;
        self.data.set(x, column);
        assert(self.columns() =~= old(self).columns().update(x as int, c));
    }
}

impl<P: Copy> Image<P> {
    /// Creates a `width` x `height` image with every pixel set to `fill`.
    pub fn new(width: usize, height: usize, fill: P) -> (r: Image<P>)
        ensures
            r.wf(),
            r.width == width,
            r.height == height,
            forall|x: int, y: int| 0 <= x < width && 0 <= y < height ==> r.data@[x]@[y] == fill,
    {
        let mut data: Vec<Vec<P>> = Vec::new();
        let mut x: usize = 0;
        while x < width
            invariant
                x <= width,
                data@.len() == x,
                forall|k: int| 0 <= k < x ==> #[trigger] data@[k]@.len() == height,
                forall|k: int, y: int| 0 <= k < x && 0 <= y < height ==> data@[k]@[y] == fill,
            decreases width - x,
        {
            let mut column: Vec<P> = Vec::new();
            let mut y: usize = 0;
            while y < height
                invariant
                    y <= height,
                    column@.len() == y,
                    forall|t: int| 0 <= t < y ==> column@[t] == fill,
                decreases height - y,
            {
                column.push(fill);
                y += 1;
            }
            data.push(column);
            x += 1;
        }
        Image { width, height, data }
    }
}

/// The decimal digits of `n`, as ASCII bytes.
pub open spec fn decimal(n: nat) -> Seq<u8>
    decreases n,
{
    if n < 10 {
        seq![(48 + n) as u8]
    } else {
        decimal(n / 10).push((48 + n % 10) as u8)
    }
}

/// The header of a binary PPM image: `P6 <width> <height> 255` and a newline.
pub open spec fn ppm_header(width: nat, height: nat) -> Seq<u8> {
    seq![80u8, 54u8, 32u8] + decimal(width) + seq![32u8] + decimal(height) + seq![
        32u8,
        50u8,
        53u8,
        53u8,
        10u8,
    ]
}

/// Channel `c` (0 for red, 1 for green, 2 for blue) of a pixel.
pub open spec fn channel(p: (u8, u8, u8), c: int) -> u8 {
    if c == 0 {
        p.0
    } else if c == 1 {
        p.1
    } else {
        p.2
    }
}

/// The pixel bytes of a binary PPM image: row by row from the top, each row from the left,
/// three bytes per pixel.
pub open spec fn ppm_body(columns: Seq<Seq<(u8, u8, u8)>>, width: nat, height: nat) -> Seq<u8> {
    Seq::new(
        3 * width * height,
        |k: int| channel(columns[(k / 3) % (width as int)][(k / 3) / (width as int)], k % 3),
    )
}

proof fn lemma_pixel_index(w: int, x: int, y: int, c: int)
    requires
        0 <= x < w,
        0 <= y,
        0 <= c < 3,
    ensures
        (3 * (w * y + x) + c) / 3 == w * y + x,
        (3 * (w * y + x) + c) % 3 == c,
        (w * y + x) % w == x,
        (w * y + x) / w == y,
{
    assert(3 * (w * y + x) + c == (w * y + x) * 3 + c) by (nonlinear_arith);
    vstd::arithmetic::div_mod::lemma_fundamental_div_mod_converse(
        3 * (w * y + x) + c,
        3,
        w * y + x,
        c,
    );
    assert(w * y + x == y * w + x) by (nonlinear_arith);
    vstd::arithmetic::div_mod::lemma_fundamental_div_mod_converse(w * y + x, w, y, x);
}

/// Appends the decimal digits of `n`.
fn push_decimal(out: &mut Vec<u8>, n: usize)
    ensures
        final(out)@ == old(out)@ + decimal(n as nat),
    decreases n,
{
    if n >= 10 {
        push_decimal(out, n / 10);
    }
    out.push((48 + n % 10) as u8);
    assert(final(out)@ =~= old(out)@ + decimal(n as nat));
}

impl Image<(u8, u8, u8)> {
    /// The image as a binary PPM file.
    pub fn to_ppm(&self) -> (r: Vec<u8>)
        requires
            self.wf(),
        ensures
            r@ == ppm_header(self.width as nat, self.height as nat) + ppm_body(
                self.columns(),
                self.width as nat,
                self.height as nat,
            ),
    {
        let mut out: Vec<u8> = Vec::new();
        out.push(80);
        out.push(54);
        out.push(32);
        push_decimal(&mut out, self.width);
        out.push(32);
        push_decimal(&mut out, self.height);
        out.push(32);
        out.push(50);
        out.push(53);
        out.push(53);
        out.push(10);
        let ghost header = out@;
        assert(header =~= ppm_header(self.width as nat, self.height as nat));
        let ghost (w, h) = (self.width as int, self.height as int);
        let mut y: usize = 0;
        while y < self.height
            invariant
                self.wf(),
                w == self.width && h == self.height,
                y <= h,
                out@.len() == header.len() + 3 * w * y,
                out@.subrange(0, header.len() as int) == header,
                forall|k: int|
                    0 <= k < 3 * w * y ==> #[trigger] out@[header.len() + k] == channel(
                        self.columns()[(k / 3) % w][(k / 3) / w],
                        k % 3,
                    ),
            decreases h - y,
        {
            let mut x: usize = 0;
            while x < self.width
                invariant
                    self.wf(),
                    w == self.width && h == self.height,
                    y < h,
                    x <= w,
                    out@.len() == header.len() + 3 * w * y + 3 * x,
                    out@.subrange(0, header.len() as int) == header,
                    forall|k: int|
                        0 <= k < 3 * w * y + 3 * x ==> #[trigger] out@[header.len() + k] == channel(
                            self.columns()[(k / 3) % w][(k / 3) / w],
                            k % 3,
                        ),
                decreases w - x,
            {
                assert(self.columns()[x as int] == self.data@[x as int]@);
                let p = self.data[x][y];
                let ghost before = out@;
                out.push(p.0);
                out.push(p.1);
                out.push(p.2);
                proof {
                    assert forall|k: int|
                        0 <= k < 3 * w * y + 3 * (x + 1) implies #[trigger] out@[header.len() + k]
                        == channel(self.columns()[(k / 3) % w][(k / 3) / w], k % 3) by {
                        if k >= 3 * w * y + 3 * x {
                            let c = k - (3 * w * y + 3 * x);
                            lemma_pixel_index(w, x as int, y as int, c);
                            assert(3 * (w * y + x) + c == k) by (nonlinear_arith)
                                requires
                                    c == k - (3 * w * y + 3 * x),
                            ;
                        } else {
                            assert(out@[header.len() + k] == before[header.len() + k]);
                        }
                    }
                    assert(out@.subrange(0, header.len() as int) =~= before.subrange(
                        0,
                        header.len() as int,
                    ));
                }
                x += 1;
            }
            assert(3 * w * y + 3 * w == 3 * w * (y + 1)) by (nonlinear_arith);
            y += 1;
        }
        proof {
            let body = ppm_body(self.columns(), w as nat, h as nat);
            assert(3 * w * h == 3 * (w as nat) * (h as nat));
            assert forall|i: int| 0 <= i < out@.len() implies out@[i] == (header + body)[i] by {
                if i < header.len() {
                    assert(out@[i] == out@.subrange(0, header.len() as int)[i]);
                } else {
                    let k = i - header.len();
                    assert(out@[header.len() + k] == channel(
                        self.columns()[(k / 3) % w][(k / 3) / w],
                        k % 3,
                    ));
                }
            }
            assert(out@ =~= header + body);
        }
        out
    }
}

/// Placing columns keyed by distinct indices gives each column the batch keyed by it,
/// whatever the order in which the batches arrive; the other columns keep their pixels.
pub proof fn lemma_placement_order_free<P>(
    columns: Seq<Seq<P>>,
    batches: Seq<(usize, Seq<P>)>,
    x: int,
)
    requires
        distinct_keys(batches),
        forall|k: int| 0 <= k < batches.len() ==> #[trigger] batches[k].0 < columns.len(),
        0 <= x < columns.len(),
    ensures
        place_all(columns, batches).len() == columns.len(),
        forall|k: int|
            0 <= k < batches.len() && batches[k].0 == x ==> place_all(columns, batches)[x]
                == batches[k].1,
        (forall|k: int| 0 <= k < batches.len() ==> batches[k].0 != x) ==> place_all(
            columns,
            batches,
        )[x] == columns[x],
    decreases batches.len(),
{
    if batches.len() > 0 {
        let rest = batches.drop_last();
        assert(distinct_keys(rest));
        assert forall|k: int| 0 <= k < rest.len() implies #[trigger] rest[k].0 < columns.len() by {
            assert(rest[k] == batches[k]);
        }
        lemma_placement_order_free(columns, rest, x);
        assert forall|k: int| 0 <= k < batches.len() && batches[k].0 == x implies place_all(
            columns,
            batches,
        )[x] == batches[k].1 by {
            if k < batches.len() - 1 {
                assert(rest[k] == batches[k]);
            }
        }
        if forall|k: int| 0 <= k < batches.len() ==> batches[k].0 != x {
            assert forall|k: int| 0 <= k < rest.len() implies rest[k].0 != x by {
                assert(rest[k] == batches[k]);
            }
        }
    }
}

/// Two deliveries of the same batches, keyed by distinct columns, in any two orders, give
/// the same image.
pub proof fn lemma_placement_permutation<P>(
    columns: Seq<Seq<P>>,
    first: Seq<(usize, Seq<P>)>,
    second: Seq<(usize, Seq<P>)>,
)
    requires
        distinct_keys(first),
        distinct_keys(second),
        forall|k: int| 0 <= k < first.len() ==> #[trigger] first[k].0 < columns.len(),
        forall|k: int| 0 <= k < second.len() ==> #[trigger] second[k].0 < columns.len(),
        forall|k: int| 0 <= k < first.len() ==> second.contains(#[trigger] first[k]),
        forall|k: int| 0 <= k < second.len() ==> first.contains(#[trigger] second[k]),
    ensures
        place_all(columns, first) == place_all(columns, second),
{
    assert forall|x: int| 0 <= x < columns.len() implies place_all(columns, first)[x]
        == place_all(columns, second)[x] by {
        lemma_placement_order_free(columns, first, x);
        lemma_placement_order_free(columns, second, x);
        if exists|k: int| 0 <= k < first.len() && first[k].0 == x {
            let k = choose|k: int| 0 <= k < first.len() && first[k].0 == x;
            assert(second.contains(first[k]));
            let j = choose|j: int| 0 <= j < second.len() && second[j] == first[k];
            assert(second[j].0 == x);
        } else if exists|j: int| 0 <= j < second.len() && second[j].0 == x {
            let j = choose|j: int| 0 <= j < second.len() && second[j].0 == x;
            assert(first.contains(second[j]));
        }
    }
    if columns.len() > 0 {
        lemma_placement_order_free(columns, first, 0);
        lemma_placement_order_free(columns, second, 0);
    } else {
        assert(first.len() == 0 && second.len() == 0) by {
            if first.len() > 0 {
                assert(first[0].0 < columns.len());
            }
            if second.len() > 0 {
                assert(second[0].0 < columns.len());
            }
        }
    }
    assert(place_all(columns, first) =~= place_all(columns, second));
}

} // verus!
