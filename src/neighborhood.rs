//! The neighbourhood of a cell: a rectangle of cell states centred on it,
//! either read in place from the grid or resolved into a small grid of its own.
use vstd::prelude::*;

use crate::grid::{CellMatrix, Grid, GridView};
use crate::CellStateType;

verus! {

/// A cell's neighbourhood. Both forms give the same reads: a shape, the cell
/// at a position, and the cells in column-major order.
pub enum Neighborhood<'a> {
    /// A rectangle of the grid, read in place.
    View(GridView<'a>),
    /// A grid of its own, filled through the boundary policy.
    Owned(Grid),
}

impl View for Neighborhood<'_> {
    type V = CellMatrix;

    open spec fn view(&self) -> CellMatrix {
        match self {
            Neighborhood::View(v) => v@,
            Neighborhood::Owned(g) => g@,
        }
    }
}

impl<'a> Neighborhood<'a> {
    /// The cells, one at a time, in column-major order.
    pub fn iter(&self) -> (r: NeighborhoodIter<'_>)
        ensures
            r.cells() == self@.cells,
            r.position() == 0,
            r.wf(),
    {
        // Reading the shape shows that the cells fill it.
        let _ = self.shape();
        NeighborhoodIter { neighborhood: self, row: 0, col: 0 }
    }

    /// The numbers of rows and columns.
    pub fn shape(&self) -> (r: (usize, usize))
        ensures
            r.0 == self@.nrows,
            r.1 == self@.ncols,
            self@.wf(),
            r.0 * r.1 <= usize::MAX,
    {
        match self {
            Neighborhood::View(v) => {
                let s = v.shape();
                proof {
                    assert(s.0 * s.1 == self@.cells.len());
                }
                s
            },
            Neighborhood::Owned(g) => g.shape(),
        }
    }

    /// The cell at `(row, column)`, or `None` outside the neighbourhood.
    pub fn get(&self, index: (usize, usize)) -> (r: Option<&CellStateType>)
        ensures
            r.is_some() <==> self@.in_bounds(index.0 as int, index.1 as int),
            r.is_some() ==> *r.unwrap() == self@.at(index.0 as int, index.1 as int),
    {
        match self {
            Neighborhood::View(v) => v.get(index),
            Neighborhood::Owned(g) => g.get(index),
        }
    }

    /// The number of cells.
    pub fn len(&self) -> (r: usize)
        ensures
            r == self@.cells.len(),
    {
        let (nrows, ncols) = self.shape();
        nrows * ncols
    }

    pub fn nrows(&self) -> (r: usize)
        ensures
            r == self@.nrows,
    {
        self.shape().0
    }

    pub fn ncols(&self) -> (r: usize)
        ensures
            r == self@.ncols,
    {
        self.shape().1
    }
}

/// Walks a neighbourhood's cells in column-major order.
pub struct NeighborhoodIter<'a> {
    neighborhood: &'a Neighborhood<'a>,
    row: usize,
    col: usize,
}

impl<'a> NeighborhoodIter<'a> {
    /// The cells being walked, in column-major order.
    pub closed spec fn cells(&self) -> Seq<CellStateType> {
        self.neighborhood@.cells
    }

    /// How many cells have been handed out.
    pub closed spec fn position(&self) -> int {
        self.col * self.neighborhood@.nrows + self.row
    }

    pub closed spec fn wf(&self) -> bool {
        let m = self.neighborhood@;
        &&& m.wf()
        &&& m.nrows * m.ncols <= usize::MAX
        &&& self.col <= m.ncols
        &&& (self.row < m.nrows || self.row == 0)
        &&& (self.col == m.ncols ==> self.row == 0)
    }

    /// The next cell, or `None` once all have been handed out.
    pub fn next(&mut self) -> (r: Option<CellStateType>)
        requires
            old(self).wf(),
        ensures
            final(self).wf(),
            final(self).cells() == old(self).cells(),
            0 <= old(self).position() <= old(self).cells().len(),
            old(self).position() < old(self).cells().len() ==> {
                &&& r == Some(old(self).cells()[old(self).position()])
                &&& final(self).position() == old(self).position() + 1
            },
            old(self).position() == old(self).cells().len() ==> {
                &&& r.is_none()
                &&& final(self).position() == old(self).position()
            },
    {
        let (nrows, ncols) = self.neighborhood.shape();
        let (row, col) = (self.row, self.col);
        if nrows == 0 || col >= ncols {
            proof {
                if col >= ncols {
                    assert(col * nrows == nrows * ncols) by (nonlinear_arith)
                        requires
                            col == ncols,
                    ;
                }
                if nrows == 0 {
                    assert(col * nrows == 0) by (nonlinear_arith)
                        requires
                            nrows == 0,
                    ;
                    assert(nrows * ncols == 0) by (nonlinear_arith)
                        requires
                            nrows == 0,
                    ;
                }
            }
            return None;
        }
        proof {
            assert(col * nrows + row < nrows * ncols) by (nonlinear_arith)
                requires
                    col < ncols,
                    row < nrows,
            ;
        }
        let v = match self.neighborhood.get((row, col)) {
            Some(x) => *x,
            None => 0,
        };
        if row + 1 == nrows {
            self.row = 0;
            self.col = col + 1;
            proof {
                assert((col + 1) * nrows == col * nrows + nrows) by (nonlinear_arith);
            }
        } else {
            self.row = row + 1;
        }
        Some(v)
    }
}

} // verus!
