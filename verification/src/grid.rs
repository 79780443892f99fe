//! Two-dimensional sample storage: an `ndarray::Array2` of binary64 bit
//! patterns, one row per channel.
//!
//! The array is held in a private field; what it holds is named by
//! `grid_rows` (the rows, in order) and `grid_width` (the number of columns,
//! which stays known when there are no rows). Every operation the library
//! performs on the array goes through one of the small trusted methods below.
use vstd::prelude::*;

verus! {

/// An `ndarray::Array2<u64>` whose cells are binary64 bit patterns.
#[derive(Debug)]
#[verifier::external_body]
pub struct SampleGrid {
    cells: ndarray::Array2<u64>,
}

/// The rows of the array, each a sequence of its cells.
pub uninterp spec fn grid_rows(g: SampleGrid) -> Seq<Seq<u64>>;

/// The number of columns of the array.
pub uninterp spec fn grid_width(g: SampleGrid) -> nat;

/// Every row of `rows` has `width` cells.
pub open spec fn rectangular(rows: Seq<Seq<u64>>, width: nat) -> bool {
    forall|i: int| 0 <= i < rows.len() ==> #[trigger] rows[i].len() == width
}

/// The rows of a `Vec` of rows, as sequences.
pub open spec fn rows_view(rows: Seq<Vec<u64>>) -> Seq<Seq<u64>> {
    rows.map_values(|r: Vec<u64>| r@)
}

/// A table of `num_rows` rows of `num_cols` zero patterns.
pub open spec fn zero_rows(num_rows: nat, num_cols: nat) -> Seq<Seq<u64>> {
    Seq::new(num_rows, |_i: int| Seq::new(num_cols, |_j: int| 0u64))
}

/// Whether `ndarray` accepts an array of this shape: the product of the
/// non-zero axis lengths must not exceed `isize::MAX`.
pub open spec fn shape_fits(num_rows: nat, num_cols: nat) -> bool {
    (if num_rows == 0 { 1 } else { num_rows }) * (if num_cols == 0 { 1 } else { num_cols })
        <= isize::MAX
}

/// Each axis of a shape that fits is at most `isize::MAX` long.
pub proof fn lemma_shape_fits_axes(num_rows: nat, num_cols: nat)
    requires
        shape_fits(num_rows, num_cols),
    ensures
        num_rows <= isize::MAX,
        num_cols <= isize::MAX,
{
    let r: int = if num_rows == 0 { 1 } else { num_rows as int };
    let c: int = if num_cols == 0 { 1 } else { num_cols as int };
    assert(r <= r * c && c <= r * c) by (nonlinear_arith)
        requires r >= 1, c >= 1;
}

/// A shape with no more columns than one that fits also fits.
pub proof fn lemma_shape_fits_shrink(num_rows: nat, num_cols: nat, fewer_cols: nat)
    requires
        shape_fits(num_rows, num_cols),
        fewer_cols <= num_cols,
    ensures
        shape_fits(num_rows, fewer_cols),
{
    let r: int = if num_rows == 0 { 1 } else { num_rows as int };
    let c: int = if num_cols == 0 { 1 } else { num_cols as int };
    let f: int = if fewer_cols == 0 { 1 } else { fewer_cols as int };
    assert(r * f <= r * c) by (nonlinear_arith)
        requires r >= 1, 1 <= f <= c;
}

impl SampleGrid {
    /// `Array2::zeros((num_rows, num_cols))`: all cells hold the pattern 0
    /// (+0.0). `ndarray` panics when the shape does not fit, so that is required.
    #[verifier::external_body]
    pub(crate) fn raw_zeros(num_rows: usize, num_cols: usize) -> (g: SampleGrid)
        requires
            shape_fits(num_rows as nat, num_cols as nat),
        ensures
            grid_rows(g) == zero_rows(num_rows as nat, num_cols as nat),
            grid_width(g) == num_cols,
    {
        SampleGrid { cells: ndarray::Array2::zeros((num_rows, num_cols)) }
    }

    /// `Array2::nrows`: the number of rows.
    #[verifier::external_body]
    pub(crate) fn raw_nrows(&self) -> (n: usize)
        ensures
            n == grid_rows(*self).len(),
    {
        self.cells.nrows()
    }

    /// `Array2::ncols`: the number of columns, which is the length of every row.
    /// `ndarray` keeps the product of the non-zero axis lengths of every array
    /// within `isize::MAX`.
    #[verifier::external_body]
    pub(crate) fn raw_ncols(&self) -> (n: usize)
        ensures
            n == grid_width(*self),
            rectangular(grid_rows(*self), n as nat),
            shape_fits(grid_rows(*self).len(), n as nat),
    {
        self.cells.ncols()
    }

    /// `self[[row, col]]`; indexing panics outside the array, so the cell must exist.
    #[verifier::external_body]
    pub(crate) fn raw_get(&self, row: usize, col: usize) -> (v: u64)
        requires
            row < grid_rows(*self).len(),
            col < grid_width(*self),
        ensures
            v == grid_rows(*self)[row as int][col as int],
    {
        self.cells[[row, col]]
    }

    /// `self[[row, col]] = v`: that one cell changes, the shape does not.
    #[verifier::external_body]
    pub(crate) fn raw_set(&mut self, row: usize, col: usize, v: u64)
        requires
            row < grid_rows(*old(self)).len(),
            col < grid_width(*old(self)),
        ensures
            grid_rows(*final(self)) == grid_rows(*old(self)).update(
                row as int,
                grid_rows(*old(self))[row as int].update(col as int, v),
            ),
            grid_width(*final(self)) == grid_width(*old(self)),
    {
        self.cells[[row, col]] = v;
    }

}

impl Clone for SampleGrid {
    /// `Array2::clone`: a copy with the same rows and width.
    #[verifier::external_body]
    fn clone(&self) -> (g: SampleGrid)
        ensures
            grid_rows(g) == grid_rows(*self),
            grid_width(g) == grid_width(*self),
    {
        SampleGrid { cells: self.cells.clone() }
    }
}

impl SampleGrid {
    /// A grid of `num_rows` rows of `num_cols` zeros.
    pub fn zeros(num_rows: usize, num_cols: usize) -> (g: SampleGrid)
        requires
            shape_fits(num_rows as nat, num_cols as nat),
        ensures
            grid_rows(g) == zero_rows(num_rows as nat, num_cols as nat),
            grid_width(g) == num_cols,
    {
        SampleGrid::raw_zeros(num_rows, num_cols)
    }

    /// The number of rows.
    pub fn nrows(&self) -> (n: usize)
        ensures
            n == grid_rows(*self).len(),
    {
        self.raw_nrows()
    }

    /// The number of columns, which is also the length of each row.
    pub fn ncols(&self) -> (n: usize)
        ensures
            n == grid_width(*self),
            rectangular(grid_rows(*self), n as nat),
            shape_fits(grid_rows(*self).len(), n as nat),
    {
        self.raw_ncols()
    }

    /// The cell at `row`, `col`, or `None` outside the grid.
    pub fn get(&self, row: usize, col: usize) -> (v: Option<u64>)
        ensures
            match v {
                Some(x) => row < grid_rows(*self).len() && col < grid_width(*self)
                    && x == grid_rows(*self)[row as int][col as int],
                None => !(row < grid_rows(*self).len() && col < grid_width(*self)),
            },
    {
        if row < self.raw_nrows() && col < self.raw_ncols() {
            Some(self.raw_get(row, col))
        } else {
            None
        }
    }

    /// A copy of row `row`.
    pub fn row(&self, row: usize) -> (r: Vec<u64>)
        requires
            row < grid_rows(*self).len(),
        ensures
            r@ == grid_rows(*self)[row as int],
    {
        let width = self.raw_ncols();
        let mut out: Vec<u64> = Vec::new();
        let mut j: usize = 0;
        while j < width
            invariant
                row < grid_rows(*self).len(),
                width == grid_width(*self),
                rectangular(grid_rows(*self), width as nat),
                j <= width,
                out@ == grid_rows(*self)[row as int].take(j as int),
            decreases width - j,
        {
            let v = self.raw_get(row, j);
            out.push(v);
            j = j + 1;
            assert(out@ =~= grid_rows(*self)[row as int].take(j as int));
        }
        assert(grid_rows(*self)[row as int].take(width as int) =~= grid_rows(*self)[row as int]);
        out
    }

    /// All rows, copied out.
    pub fn to_rows(&self) -> (rows: Vec<Vec<u64>>)
        ensures
            rows_view(rows@) == grid_rows(*self),
    {
        let n = self.raw_nrows();
        let mut out: Vec<Vec<u64>> = Vec::new();
        let mut i: usize = 0;
        while i < n
            invariant
                n == grid_rows(*self).len(),
                i <= n,
                rows_view(out@) == grid_rows(*self).take(i as int),
            decreases n - i,
        {
            let r = self.row(i);
            let ghost prev = out@;
            out.push(r);
            assert(out@ == prev.push(r));
            assert(rows_view(prev).len() == i);
            assert(prev.len() == i);
            assert forall|k: int| 0 <= k < i + 1 implies #[trigger] rows_view(out@)[k] == grid_rows(*self).take(i + 1)[k] by {
                if k < i {
                    assert(out@[k] == prev[k]);
                    assert(rows_view(prev)[k] == grid_rows(*self).take(i as int)[k]);
                }
            }
            i = i + 1;
            assert(rows_view(out@) =~= grid_rows(*self).take(i as int));
        }
        assert(grid_rows(*self).take(n as int) =~= grid_rows(*self));
        out
    }

    /// Builds a grid of `num_cols` columns from `rows`; `None` when a row has
    /// another length or the shape is too large for an array.
    pub fn from_rows(rows: &Vec<Vec<u64>>, num_cols: usize) -> (g: Option<SampleGrid>)
        ensures
            match g {
                Some(g) => grid_rows(g) == rows_view(rows@) && grid_width(g) == num_cols,
                None => !rectangular(rows_view(rows@), num_cols as nat)
                    || !shape_fits(rows@.len(), num_cols as nat),
            },
    {
        let n = rows.len();
        let mut k: usize = 0;
        while k < n
            invariant
                n == rows@.len(),
                k <= n,
                forall|i: int| 0 <= i < k ==> #[trigger] rows@[i]@.len() == num_cols,
            decreases n - k,
        {
            if rows[k].len() != num_cols {
                assert(rows_view(rows@)[k as int].len() != num_cols);
                return None;
            }
            k = k + 1;
        }
        let rn: usize = if n == 0 { 1 } else { n };
        let cn: usize = if num_cols == 0 { 1 } else { num_cols };
        if rn > (isize::MAX as usize) / cn {
            assert(rn * cn > isize::MAX) by (nonlinear_arith)
                requires rn > (isize::MAX as usize) / cn, cn >= 1;
            return None;
        }
        assert(rn * cn <= isize::MAX) by (nonlinear_arith)
            requires rn <= (isize::MAX as usize) / cn, cn >= 1;
        let mut g = SampleGrid::raw_zeros(n, num_cols);
        let mut i: usize = 0;
        while i < n
            invariant
                n == rows@.len(),
                i <= n,
                grid_width(g) == num_cols,
                grid_rows(g).len() == n,
                forall|r: int| 0 <= r < n ==> #[trigger] rows@[r]@.len() == num_cols,
                forall|r: int| 0 <= r < i ==> #[trigger] grid_rows(g)[r] == rows@[r]@,
                forall|r: int| i <= r < n ==> #[trigger] grid_rows(g)[r] == Seq::new(num_cols as nat, |_j: int| 0u64),
            decreases n - i,
        {
            let mut j: usize = 0;
            while j < num_cols
                invariant
                    n == rows@.len(),
                    i < n,
                    j <= num_cols,
                    grid_width(g) == num_cols,
                    grid_rows(g).len() == n,
                    forall|r: int| 0 <= r < n ==> #[trigger] rows@[r]@.len() == num_cols,
                    forall|r: int| 0 <= r < i ==> #[trigger] grid_rows(g)[r] == rows@[r]@,
                    forall|r: int| i < r < n ==> #[trigger] grid_rows(g)[r] == Seq::new(num_cols as nat, |_j: int| 0u64),
                    grid_rows(g)[i as int].len() == num_cols,
                    forall|c: int| 0 <= c < j ==> #[trigger] grid_rows(g)[i as int][c] == rows@[i as int]@[c],
                    forall|c: int| j <= c < num_cols ==> #[trigger] grid_rows(g)[i as int][c] == 0u64,
                decreases num_cols - j,
            {
                let v = rows[i][j];
                g.raw_set(i, j, v);
                j = j + 1;
            }
            assert(grid_rows(g)[i as int] =~= rows@[i as int]@);
            i = i + 1;
        }
        assert(grid_rows(g) =~= rows_view(rows@));
        Some(g)
    }
}

/// A one-dimensional `ndarray::Array1<u64>` of binary64 bit patterns, such
/// as an axis of sample positions.
#[derive(Debug)]
#[verifier::external_body]
pub struct SampleLine {
    cells: ndarray::Array1<u64>,
}

/// The values of the array, in order.
pub uninterp spec fn line_values(l: SampleLine) -> Seq<u64>;

impl SampleLine {
    /// `Array1::from_vec`: the array holds the vector's values in order.
    #[verifier::external_body]
    pub(crate) fn raw_from_vec(v: Vec<u64>) -> (l: SampleLine)
        ensures
            line_values(l) == v@,
    {
        SampleLine { cells: ndarray::Array1::from_vec(v) }
    }

    /// `Array1::len`: the number of values.
    #[verifier::external_body]
    pub(crate) fn raw_len(&self) -> (n: usize)
        ensures
            n == line_values(*self).len(),
    {
        self.cells.len()
    }

    /// `self[i]`; indexing panics outside the array, so the index must exist.
    #[verifier::external_body]
    pub(crate) fn raw_get(&self, i: usize) -> (v: u64)
        requires
            i < line_values(*self).len(),
        ensures
            v == line_values(*self)[i as int],
    {
        self.cells[i]
    }
}

impl Clone for SampleLine {
    /// `Array1::clone`: a copy with the same values.
    #[verifier::external_body]
    fn clone(&self) -> (l: SampleLine)
        ensures
            line_values(l) == line_values(*self),
    {
        SampleLine { cells: self.cells.clone() }
    }
}

impl SampleLine {
    /// An array holding `v`'s values.
    pub fn from_vec(v: Vec<u64>) -> (l: SampleLine)
        ensures
            line_values(l) == v@,
    {
        SampleLine::raw_from_vec(v)
    }

    /// The number of values.
    pub fn len(&self) -> (n: usize)
        ensures
            n == line_values(*self).len(),
    {
        self.raw_len()
    }

    /// The value at `i`, or `None` past the end.
    pub fn get(&self, i: usize) -> (v: Option<u64>)
        ensures
            match v {
                Some(x) => i < line_values(*self).len() && x == line_values(*self)[i as int],
                None => i >= line_values(*self).len(),
            },
    {
        if i < self.raw_len() { Some(self.raw_get(i)) } else { None }
    }

    /// The values, copied out.
    pub fn to_vec(&self) -> (v: Vec<u64>)
        ensures
            v@ == line_values(*self),
    {
        let n = self.raw_len();
        let mut out: Vec<u64> = Vec::new();
        let mut i: usize = 0;
        while i < n
            invariant
                n == line_values(*self).len(),
                i <= n,
                out@ == line_values(*self).take(i as int),
            decreases n - i,
        {
            out.push(self.raw_get(i));
            i = i + 1;
            assert(out@ =~= line_values(*self).take(i as int));
        }
        assert(line_values(*self).take(n as int) =~= line_values(*self));
        out
    }
}

/// Complex cells held as two grids of binary64 patterns of equal shape: the
/// real parts and the imaginary parts.
#[derive(Debug)]
pub struct ComplexGrid {
    re: SampleGrid,
    im: SampleGrid,
}

/// What a complex grid holds.
pub struct ComplexGridModel {
    pub re: Seq<Seq<u64>>,
    pub im: Seq<Seq<u64>>,
    pub width: nat,
}

impl View for ComplexGrid {
    type V = ComplexGridModel;

    closed spec fn view(&self) -> ComplexGridModel {
        ComplexGridModel { re: grid_rows(self.re), im: grid_rows(self.im), width: grid_width(self.re) }
    }
}

impl ComplexGrid {
    /// The two parts have the same number of rows and columns.
    #[verifier::type_invariant]
    spec fn same_shape(&self) -> bool {
        &&& grid_rows(self.re).len() == grid_rows(self.im).len()
        &&& grid_width(self.re) == grid_width(self.im)
    }

    /// A grid of complex zeros.
    pub fn zeros(num_rows: usize, num_cols: usize) -> (g: ComplexGrid)
        requires
            shape_fits(num_rows as nat, num_cols as nat),
        ensures
            g@.re == zero_rows(num_rows as nat, num_cols as nat),
            g@.im == zero_rows(num_rows as nat, num_cols as nat),
            g@.width == num_cols,
    {
        ComplexGrid { re: SampleGrid::raw_zeros(num_rows, num_cols), im: SampleGrid::raw_zeros(num_rows, num_cols) }
    }

    /// Pairs a grid of real parts with a grid of imaginary parts; `None` when
    /// their shapes differ.
    pub fn from_parts(re: SampleGrid, im: SampleGrid) -> (g: Option<ComplexGrid>)
        ensures
            match g {
                Some(g) => g@.re == grid_rows(re) && g@.im == grid_rows(im)
                    && g@.width == grid_width(re),
                None => grid_rows(re).len() != grid_rows(im).len() || grid_width(re) != grid_width(im),
            },
    {
        if re.raw_nrows() == im.raw_nrows() && re.raw_ncols() == im.raw_ncols() {
            Some(ComplexGrid { re, im })
        } else {
            None
        }
    }

    /// The real parts.
    pub fn re(&self) -> (g: &SampleGrid)
        ensures
            grid_rows(*g) == self@.re,
            grid_width(*g) == self@.width,
    {
        &self.re
    }

    /// The imaginary parts.
    pub fn im(&self) -> (g: &SampleGrid)
        ensures
            grid_rows(*g) == self@.im,
            grid_width(*g) == self@.width,
    {
        proof { use_type_invariant(self); }
        &self.im
    }

    /// The number of rows.
    pub fn nrows(&self) -> (n: usize)
        ensures
            n == self@.re.len(),
    {
        self.re.raw_nrows()
    }

    /// The number of columns; every row of both parts has that many cells.
    pub fn ncols(&self) -> (n: usize)
        ensures
            n == self@.width,
            rectangular(self@.re, n as nat),
            rectangular(self@.im, n as nat),
            shape_fits(self@.re.len(), n as nat),
            self@.im.len() == self@.re.len(),
    {
        proof { use_type_invariant(self); }
        let n = self.re.raw_ncols();
        let _ = self.im.raw_ncols();
        n
    }

    /// The real and imaginary parts of one cell, or `None` outside the grid.
    pub fn get(&self, row: usize, col: usize) -> (v: Option<(u64, u64)>)
        ensures
            match v {
                Some(x) => row < self@.re.len() && col < self@.width
                    && x == (self@.re[row as int][col as int], self@.im[row as int][col as int]),
                None => !(row < self@.re.len() && col < self@.width),
            },
    {
        proof { use_type_invariant(self); }
        if row < self.re.raw_nrows() && col < self.re.raw_ncols() {
            Some((self.re.raw_get(row, col), self.im.raw_get(row, col)))
        } else {
            None
        }
    }

}

impl Clone for ComplexGrid {
    /// A copy of this grid.
    fn clone(&self) -> (g: ComplexGrid)
        ensures
            g@ == self@,
    {
        proof { use_type_invariant(self); }
        ComplexGrid { re: self.re.clone(), im: self.im.clone() }
    }
}

} // verus!
