//! The grid of cell states, held as an nalgebra matrix.
//!
//! nalgebra stores a matrix in column-major order; the contracts here see a
//! matrix as a `CellMatrix`: its numbers of rows and columns and its cells in
//! that order.
use vstd::prelude::*;

use nalgebra::{DMatrix, Dyn, MatrixView};
use vstd::arithmetic::div_mod::{lemma_fundamental_div_mod, lemma_fundamental_div_mod_converse, lemma_mod_bound};

verus! {

/// Position `k` of a column-major `nrows` by `ncols` matrix is row
/// `k % nrows` of column `k / nrows`.
pub proof fn lemma_column_major(k: int, nrows: int, ncols: int)
    requires
        0 <= k < nrows * ncols,
        0 <= ncols,
    ensures
        nrows > 0,
        0 <= k % nrows < nrows,
        0 <= k / nrows < ncols,
        k == (k / nrows) * nrows + k % nrows,
{
    if nrows <= 0 {
        assert(nrows * ncols <= 0) by (nonlinear_arith)
            requires
                nrows <= 0,
                0 <= ncols,
        ;
    }
    lemma_fundamental_div_mod(k, nrows);
    lemma_mod_bound(k, nrows);
    let q = k / nrows;
    assert(0 <= q < ncols) by (nonlinear_arith)
        requires
            k == nrows * q + k % nrows,
            0 <= k % nrows < nrows,
            0 <= k < nrows * ncols,
    ;
    assert(k == q * nrows + k % nrows) by (nonlinear_arith)
        requires
            k == nrows * q + k % nrows,
    ;
}

/// Row `i` of column `j` of a column-major `nrows` by `ncols` matrix is at
/// position `j * nrows + i`.
pub proof fn lemma_position(i: int, j: int, nrows: int, ncols: int)
    requires
        0 <= i < nrows,
        0 <= j < ncols,
    ensures
        0 <= j * nrows + i < nrows * ncols,
        (j * nrows + i) % nrows == i,
        (j * nrows + i) / nrows == j,
{
    assert(0 <= j * nrows + i < nrows * ncols) by (nonlinear_arith)
        requires
            0 <= i < nrows,
            0 <= j < ncols,
    ;
    lemma_fundamental_div_mod_converse(j * nrows + i, nrows, j, i);
}

/// A matrix of cell states as the contracts see it: `cells` lists them
/// column by column.
pub struct CellMatrix {
    pub nrows: nat,
    pub ncols: nat,
    pub cells: Seq<u8>,
}

impl CellMatrix {
    /// The cells fill the matrix exactly.
    pub open spec fn wf(self) -> bool {
        self.cells.len() == self.nrows * self.ncols
    }

    pub open spec fn in_bounds(self, i: int, j: int) -> bool {
        0 <= i < self.nrows && 0 <= j < self.ncols
    }

    /// The cell in row `i` and column `j`.
    pub open spec fn at(self, i: int, j: int) -> u8 {
        self.cells[j * self.nrows + i]
    }
}

/// The grid: an owned nalgebra matrix of cell states.
#[verifier::external_body]
#[derive(Debug)]
pub struct Grid {
    matrix: DMatrix<u8>,
}

/// The cells of a grid, in column-major order.
pub uninterp spec fn grid_cells(g: Grid) -> Seq<u8>;

/// The numbers of rows and columns of a grid.
pub uninterp spec fn grid_shape(g: Grid) -> (nat, nat);

impl View for Grid {
    type V = CellMatrix;

    open spec fn view(&self) -> CellMatrix {
        CellMatrix { nrows: grid_shape(*self).0, ncols: grid_shape(*self).1, cells: grid_cells(*self) }
    }
}

/// A rectangle of a grid, read in place.
#[verifier::external_body]
pub struct GridView<'a> {
    view: MatrixView<'a, u8, Dyn, Dyn>,
}

/// The cells of a grid view, in column-major order.
pub uninterp spec fn view_cells(v: GridView) -> Seq<u8>;

/// The numbers of rows and columns of a grid view.
pub uninterp spec fn view_shape(v: GridView) -> (nat, nat);

impl View for GridView<'_> {
    type V = CellMatrix;

    open spec fn view(&self) -> CellMatrix {
        CellMatrix { nrows: view_shape(*self).0, ncols: view_shape(*self).1, cells: view_cells(*self) }
    }
}

/// Relies on nalgebra's `Matrix::shape`: the numbers of rows and columns.
/// The matrix holds one element for each position, in a `Vec`: every `Grid`
/// is made by `matrix_from_vec`, from data whose length is that product.
#[verifier::external_body]
fn matrix_shape(g: &Grid) -> (r: (usize, usize))
    ensures
        grid_shape(*g) == (r.0 as nat, r.1 as nat),
        grid_cells(*g).len() == r.0 * r.1,
        r.0 * r.1 <= usize::MAX,
{
    g.matrix.shape()
}

/// Relies on nalgebra's `Matrix::get` with a `(row, column)` index: the
/// element there, or `None` outside the matrix.
#[verifier::external_body]
fn matrix_get(g: &Grid, index: (usize, usize)) -> (r: Option<&u8>)
    ensures
        r.is_some() <==> (index.0 < grid_shape(*g).0 && index.1 < grid_shape(*g).1),
        r.is_some() ==> *r.unwrap() == grid_cells(*g)[index.1 * grid_shape(*g).0 + index.0],
{
    g.matrix.get(index)
}

/// Relies on nalgebra's `DMatrix::from_vec`: the matrix of the given shape
/// whose elements, in column-major order, are `data`.
#[verifier::external_body]
pub(crate) fn matrix_from_vec(nrows: usize, ncols: usize, data: Vec<u8>) -> (r: Grid)
    requires
        data@.len() == nrows * ncols,
    ensures
        grid_shape(r) == (nrows as nat, ncols as nat),
        grid_cells(r) == data@,
{
    Grid { matrix: DMatrix::from_vec(nrows, ncols, data) }
}

/// Relies on nalgebra's `Matrix::view`: the rectangle of `shape` whose first
/// element is at `start`, read in place.
#[verifier::external_body]
fn matrix_view<'a>(g: &'a Grid, start: (usize, usize), shape: (usize, usize)) -> (r: GridView<'a>)
    requires
        start.0 + shape.0 <= g@.nrows,
        start.1 + shape.1 <= g@.ncols,
    ensures
        view_shape(r) == (shape.0 as nat, shape.1 as nat),
        view_cells(r).len() == shape.0 * shape.1,
        forall|i: int, j: int|
            0 <= i < shape.0 && 0 <= j < shape.1 ==> #[trigger] view_cells(r)[j * shape.0 + i]
                == grid_cells(*g)[(start.1 + j) * grid_shape(*g).0 + start.0 + i],
{
    GridView { view: g.matrix.view(start, shape) }
}

/// Relies on nalgebra's `Matrix::shape`, on a view: its numbers of rows and
/// columns.
#[verifier::external_body]
fn view_shape_of(v: &GridView) -> (r: (usize, usize))
    ensures
        view_shape(*v) == (r.0 as nat, r.1 as nat),
        view_cells(*v).len() == r.0 * r.1,
        r.0 * r.1 <= usize::MAX,
{
    v.view.shape()
}

/// Relies on nalgebra's `Matrix::get` with a `(row, column)` index, on a
/// view: the element there, or `None` outside the view.
#[verifier::external_body]
fn view_get<'a>(v: &'a GridView, index: (usize, usize)) -> (r: Option<&'a u8>)
    ensures
        r.is_some() <==> (index.0 < view_shape(*v).0 && index.1 < view_shape(*v).1),
        r.is_some() ==> *r.unwrap() == view_cells(*v)[index.1 * view_shape(*v).0 + index.0],
{
    v.view.get(index)
}

impl Grid {
    /// The grid of `nrows` rows and `ncols` columns whose cells, column by
    /// column, are `cells`; `None` when their number is not `nrows * ncols`.
    pub fn from_column_major(nrows: usize, ncols: usize, cells: Vec<u8>) -> (r: Option<Grid>)
        ensures
            r.is_some() <==> cells@.len() == nrows * ncols,
            r matches Some(g) ==> g@ == (CellMatrix {
                nrows: nrows as nat,
                ncols: ncols as nat,
                cells: cells@,
            }),
    {
        let len = cells.len();
        match nrows.checked_mul(ncols) {
            Some(n) => {
                if n == len {
                    Some(matrix_from_vec(nrows, ncols, cells))
                } else {
                    None
                }
            },
            None => None,
        }
    }

    /// The numbers of rows and columns.
    pub fn shape(&self) -> (r: (usize, usize))
        ensures
            r.0 == self@.nrows,
            r.1 == self@.ncols,
            self@.wf(),
            r.0 * r.1 <= usize::MAX,
    {
        matrix_shape(self)
    }

    pub fn nrows(&self) -> (r: usize)
        ensures
            r == self@.nrows,
    {
        matrix_shape(self).0
    }

    pub fn ncols(&self) -> (r: usize)
        ensures
            r == self@.ncols,
    {
        matrix_shape(self).1
    }

    /// The cell at `(row, column)`, or `None` outside the grid.
    pub fn get(&self, index: (usize, usize)) -> (r: Option<&u8>)
        ensures
            r.is_some() <==> self@.in_bounds(index.0 as int, index.1 as int),
            r.is_some() ==> *r.unwrap() == self@.at(index.0 as int, index.1 as int),
    {
        matrix_get(self, index)
    }

    /// The cell at `(row, col)`, which lies inside the grid.
    pub fn cell(&self, row: usize, col: usize) -> (r: u8)
        requires
            self@.in_bounds(row as int, col as int),
        ensures
            r == self@.at(row as int, col as int),
    {
        match matrix_get(self, (row, col)) {
            Some(v) => *v,
            None => 0,
        }
    }

    /// The rectangle of `shape` whose first cell is at `start`, read in place.
    pub fn subview(&self, start: (usize, usize), shape: (usize, usize)) -> (r: GridView<'_>)
        requires
            start.0 + shape.0 <= self@.nrows,
            start.1 + shape.1 <= self@.ncols,
        ensures
            r@.nrows == shape.0,
            r@.ncols == shape.1,
            r@.wf(),
            forall|i: int, j: int|
                0 <= i < shape.0 && 0 <= j < shape.1 ==> #[trigger] r@.at(i, j) == self@.at(
                    start.0 + i,
                    start.1 + j,
                ),
    {
        matrix_view(self, start, shape)
    }
}

impl<'a> GridView<'a> {
    /// The numbers of rows and columns.
    pub fn shape(&self) -> (r: (usize, usize))
        ensures
            r.0 == self@.nrows,
            r.1 == self@.ncols,
            self@.wf(),
            r.0 * r.1 <= usize::MAX,
    {
        view_shape_of(self)
    }

    /// The cell at `(row, column)` of the view, or `None` outside it.
    pub fn get(&self, index: (usize, usize)) -> (r: Option<&u8>)
        ensures
            r.is_some() <==> self@.in_bounds(index.0 as int, index.1 as int),
            r.is_some() ==> *r.unwrap() == self@.at(index.0 as int, index.1 as int),
    {
        view_get(self, index)
    }
}

} // verus!
