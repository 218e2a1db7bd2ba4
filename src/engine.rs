//! The engine: a grid, a rule, a neighbourhood shape and a boundary policy,
//! advanced one generation at a time.
use vstd::prelude::*;

use rayon::iter::{IntoParallelIterator, ParallelIterator};
use vstd::arithmetic::div_mod::{
    lemma_fundamental_div_mod, lemma_fundamental_div_mod_converse, lemma_small_mod,
};

use crate::grid::{lemma_column_major, lemma_position, matrix_from_vec, CellMatrix, Grid};
use crate::neighborhood::Neighborhood;
use crate::CellStateType;

verus! {

broadcast use vstd::string::group_string_axioms;

/// A transition rule: the next state of a cell from its neighbourhood and its
/// current state. The neighbourhood includes the cell itself.
pub trait Rules: Send + Sync {
    /// The next state for a neighbourhood `window` and a current state.
    spec fn next_state(&self, window: CellMatrix, current_state: CellStateType) -> CellStateType;

    fn step(&self, neighborhood: &Neighborhood, current_state: CellStateType) -> (r: CellStateType)
        ensures
            r == self.next_state(neighborhood@, current_state),
    ;
}

/// How a position outside the grid is read.
#[derive(Debug, Clone, Copy, PartialEq, Eq, Structural)]
pub enum RetrievalMode {
    /// Rows and columns wrap around: the grid is a torus.
    Wrapping,
    /// Every cell outside the grid reads as zero.
    Padded,
}

/// The state that the boundary policy `mode` reads at `(row, col)` of `g`,
/// inside the grid or not.
pub open spec fn resolve(g: CellMatrix, mode: RetrievalMode, row: int, col: int) -> CellStateType {
    match mode {
        RetrievalMode::Wrapping => g.at(row % (g.nrows as int), col % (g.ncols as int)),
        RetrievalMode::Padded => if g.in_bounds(row, col) {
            g.at(row, col)
        } else {
            0
        },
    }
}

/// `x` wrapped into `0..n`.
fn wrap_index(x: i128, n: usize) -> (r: usize)
    requires
        n > 0,
    ensures
        r as int == (x as int) % (n as int),
{
    if x >= 0 {
        ((x as u128) % (n as u128)) as usize
    } else {
        let m = ((-(x + 1)) as u128) % (n as u128);
        proof {
            let a = -(x + 1);
            lemma_fundamental_div_mod(a, n as int);
            let q = a / (n as int);
            assert(x == (-(q + 1)) * (n as int) + (n - 1 - m)) by (nonlinear_arith)
                requires
                    a == (n as int) * q + m,
                    x == -(a + 1),
            ;
            lemma_fundamental_div_mod_converse(x as int, n as int, -(q + 1), n - 1 - m);
        }
        (n as u128 - 1 - m) as usize
    }
}

/// Relies on rayon: collecting an indexed parallel `map` over `0..n` into a
/// `Vec` keeps the order of the indices, so element `k` is what the closure
/// returned for `k`. The closure is `Engine::next_cell`.
#[verifier::external_body]
fn next_generation_parallel<R: Rules>(engine: &Engine<R>, n: usize) -> (r: Vec<CellStateType>)
    requires
        engine.wf(),
        n == engine.current().cells.len(),
    ensures
        r@.len() == n,
        forall|k: int| 0 <= k < n ==> r@[k] == engine.evolve(engine.current()).cells[k],
{
    (0..n).into_par_iter().map(|k| engine.next_cell(k)).collect()
}

/// A grid of cell states evolving under a rule.
pub struct Engine<R: Rules> {
    /// The current generation.
    pub grid: Grid,
    pub rules: R,
    neighbourhood_shape: (usize, usize),
    pub retrieval_mode: RetrievalMode,
    /// For each position of a neighbourhood, in column-major order, its
    /// (row, column) offset from the centre cell.
    neighbourhood_indices: Vec<(i128, i128)>,
    /// While set, `step` leaves the grid as it is.
    pub paused: bool,
}

impl<R: Rules> Engine<R> {
    /// The current generation.
    pub closed spec fn current(&self) -> CellMatrix {
        self.grid@
    }

    pub closed spec fn rule(&self) -> R {
        self.rules
    }

    pub closed spec fn mode(&self) -> RetrievalMode {
        self.retrieval_mode
    }

    pub closed spec fn is_paused(&self) -> bool {
        self.paused
    }

    /// The neighbourhood shape, (rows, columns).
    pub closed spec fn shape(&self) -> (int, int) {
        (self.neighbourhood_shape.0 as int, self.neighbourhood_shape.1 as int)
    }

    /// How far the neighbourhood reaches above and left of its centre.
    pub open spec fn half(&self) -> (int, int) {
        (self.shape().0 / 2, self.shape().1 / 2)
    }

    pub closed spec fn offsets_ok(&self) -> bool {
        let (s0, s1) = self.shape();
        let (h0, h1) = self.half();
        &&& self.neighbourhood_indices@.len() == s0 * s1
        &&& forall|k: int|
            0 <= k < s0 * s1 ==> #[trigger] self.neighbourhood_indices@[k] == (
                (k % s0 - h0) as i128,
                (k / s0 - h1) as i128,
            )
    }

    /// The engine's invariant: the neighbourhood is strictly smaller than the
    /// grid in both directions.
    pub open spec fn wf(&self) -> bool {
        &&& self.current().wf()
        &&& self.current().nrows > self.shape().0 >= 0
        &&& self.current().ncols > self.shape().1 >= 0
        &&& self.offsets_ok()
    }

    /// The neighbourhood centred on `(r, c)` in the grid `g`, each position
    /// resolved through the boundary policy.
    pub open spec fn window_of(&self, g: CellMatrix, r: int, c: int) -> CellMatrix {
        let (s0, s1) = self.shape();
        let (h0, h1) = self.half();
        CellMatrix {
            nrows: s0 as nat,
            ncols: s1 as nat,
            cells: Seq::new(
                (s0 * s1) as nat,
                |k: int| resolve(g, self.mode(), r + k % s0 - h0, c + k / s0 - h1),
            ),
        }
    }

    /// The neighbourhood of `(r, c)` in the current grid.
    pub open spec fn neighbourhood(&self, r: int, c: int) -> CellMatrix {
        self.window_of(self.current(), r, c)
    }

    /// The neighbourhood of `(r, c)` lies inside the grid.
    pub open spec fn interior(&self, r: int, c: int) -> bool {
        let (s0, s1) = self.shape();
        let (h0, h1) = self.half();
        &&& r >= h0
        &&& c >= h1
        &&& r - h0 + s0 <= self.current().nrows
        &&& c - h1 + s1 <= self.current().ncols
    }

    /// The generation after `g`: each cell, taken in column-major order, gets
    /// the rule's state for its neighbourhood in `g`.
    pub open spec fn evolve(&self, g: CellMatrix) -> CellMatrix {
        CellMatrix {
            nrows: g.nrows,
            ncols: g.ncols,
            cells: Seq::new(
                g.cells.len(),
                |k: int|
                    self.rule().next_state(
                        self.window_of(g, k % (g.nrows as int), k / (g.nrows as int)),
                        g.cells[k],
                    ),
            ),
        }
    }

    /// The grid after `n` generations from the current one.
    pub open spec fn generation(&self, n: nat) -> CellMatrix
        decreases n,
    {
        if n == 0 {
            self.current()
        } else {
            self.evolve(self.generation((n - 1) as nat))
        }
    }

    /// An engine over `grid` with `rules`, a neighbourhood of
    /// `neighbourhood_shape` (rows, columns) centred on each cell, and the
    /// boundary policy `retrieval_mode`. Fails unless the neighbourhood is
    /// strictly smaller than the grid in both directions.
    pub fn new(
        grid: Grid,
        rules: R,
        neighbourhood_shape: (usize, usize),
        retrieval_mode: RetrievalMode,
    ) -> (r: Result<Engine<R>, String>)
        ensures
            r.is_ok() <==> (grid@.nrows > neighbourhood_shape.0 && grid@.ncols
                > neighbourhood_shape.1),
            r matches Ok(e) ==> {
                &&& e.wf()
                &&& e.current() == grid@
                &&& e.rule() == rules
                &&& e.shape() == (neighbourhood_shape.0 as int, neighbourhood_shape.1 as int)
                &&& e.mode() == retrieval_mode
                &&& !e.is_paused()
            },
            r matches Err(m) ==> m@ == "neighbourhood shape must be strictly smaller than the grid shape"@,
    {
        proof {
            reveal_strlit("neighbourhood shape must be strictly smaller than the grid shape");
        }
        let (nrows, ncols) = grid.shape();
        if nrows <= neighbourhood_shape.0 || ncols <= neighbourhood_shape.1 {
            return Err("neighbourhood shape must be strictly smaller than the grid shape".to_string());
        }
        let (s0, s1) = neighbourhood_shape;
        let (h0, h1) = (s0 / 2, s1 / 2);
        proof {
            assert(s0 * s1 <= nrows * ncols) by (nonlinear_arith)
                requires
                    s0 < nrows,
                    s1 < ncols,
            ;
        }
        let mut indices: Vec<(i128, i128)> = Vec::new();
        let mut j: usize = 0;
        while j < s1
            invariant
                j <= s1,
                s0 * s1 <= usize::MAX,
                h0 == s0 / 2,
                h1 == s1 / 2,
                indices@.len() == j * s0,
                forall|k: int|
                    0 <= k < j * s0 ==> #[trigger] indices@[k] == (
                        (k % (s0 as int) - h0) as i128,
                        (k / (s0 as int) - h1) as i128,
                    ),
            decreases s1 - j,
        {
            let mut i: usize = 0;
            while i < s0
                invariant
                    i <= s0,
                    j < s1,
                    s0 * s1 <= usize::MAX,
                    h0 == s0 / 2,
                    h1 == s1 / 2,
                    indices@.len() == j * s0 + i,
                    forall|k: int|
                        0 <= k < j * s0 + i ==> #[trigger] indices@[k] == (
                            (k % (s0 as int) - h0) as i128,
                            (k / (s0 as int) - h1) as i128,
                        ),
                decreases s0 - i,
            {
                proof {
                    lemma_fundamental_div_mod_converse(
                        j * s0 + i,
                        s0 as int,
                        j as int,
                        i as int,
                    );
                }
                indices.push(((i as i128) - (h0 as i128), (j as i128) - (h1 as i128)));
                i = i + 1;
            }
            proof {
                assert((j + 1) * s0 == j * s0 + s0) by (nonlinear_arith);
            }
            j = j + 1;
        }
        proof {
            assert(s1 * s0 == s0 * s1) by (nonlinear_arith);
        }
        Ok(
            Engine {
                grid,
                rules,
                neighbourhood_shape,
                retrieval_mode,
                neighbourhood_indices: indices,
                paused: false,
            },
        )
    }

    /// Position `(i, j)` of the neighbourhood of `(r, c)` in `g` reads what
    /// the boundary policy resolves at `(r + i - h0, c + j - h1)`.
    pub proof fn lemma_window_at(&self, g: CellMatrix, r: int, c: int, i: int, j: int)
        requires
            0 <= i < self.shape().0,
            0 <= j < self.shape().1,
        ensures
            self.window_of(g, r, c).at(i, j) == resolve(
                g,
                self.mode(),
                r + i - self.half().0,
                c + j - self.half().1,
            ),
    {
        lemma_position(i, j, self.shape().0, self.shape().1);
    }

    /// Where a neighbourhood lies inside the grid, reading it in place gives
    /// what resolving each position through the boundary policy gives.
    pub proof fn lemma_view_path_agrees(&self, r: int, c: int)
        requires
            self.wf(),
            self.interior(r, c),
        ensures
            forall|i: int, j: int|
                0 <= i < self.shape().0 && 0 <= j < self.shape().1 ==> #[trigger] self.neighbourhood(
                    r,
                    c,
                ).at(i, j) == self.current().at(r - self.half().0 + i, c - self.half().1 + j),
    {
        let g = self.current();
        assert forall|i: int, j: int|
            0 <= i < self.shape().0 && 0 <= j < self.shape().1 implies #[trigger] self.neighbourhood(
                r,
                c,
            ).at(i, j) == g.at(r - self.half().0 + i, c - self.half().1 + j) by {
            self.lemma_window_at(g, r, c, i, j);
            let (x, y) = (r + i - self.half().0, c + j - self.half().1);
            lemma_small_mod(x as nat, g.nrows);
            lemma_small_mod(y as nat, g.ncols);
        }
    }

    /// The neighbourhood shape, (rows, columns).
    pub fn neighbourhood_shape(&self) -> (r: (usize, usize))
        ensures
            r.0 == self.shape().0,
            r.1 == self.shape().1,
    {
        self.neighbourhood_shape
    }

    /// The state read at `(row, col)`, inside the grid or not, under the
    /// boundary policy.
    pub fn get_from_grid(&self, row: i128, col: i128) -> (r: CellStateType)
        requires
            self.wf(),
        ensures
            r == resolve(self.current(), self.mode(), row as int, col as int),
    {
        let (nrows, ncols) = self.grid.shape();
        match self.retrieval_mode {
            RetrievalMode::Padded => {
                if row < 0 || col < 0 || row >= nrows as i128 || col >= ncols as i128 {
                    0
                } else {
                    self.grid.cell(row as usize, col as usize)
                }
            },
            RetrievalMode::Wrapping => {
                let r = wrap_index(row, nrows);
                let c = wrap_index(col, ncols);
                self.grid.cell(r, c)
            },
        }
    }

    /// The neighbourhood of `index` read in place, when it lies inside the
    /// grid; `None` otherwise.
    pub fn get_neighbourhood_from_view(&self, index: (usize, usize)) -> (r: Option<Neighborhood<'_>>)
        requires
            self.wf(),
        ensures
            r.is_some() <==> self.interior(index.0 as int, index.1 as int),
            r matches Some(n) ==> {
                &&& n is View
                &&& n@.nrows == self.shape().0
                &&& n@.ncols == self.shape().1
                &&& n@.wf()
                &&& forall|i: int, j: int|
                    0 <= i < self.shape().0 && 0 <= j < self.shape().1 ==> #[trigger] n@.at(i, j)
                        == self.current().at(
                        index.0 - self.half().0 + i,
                        index.1 - self.half().1 + j,
                    )
            },
    {
        let (s0, s1) = self.neighbourhood_shape;
        let (h0, h1) = (s0 / 2, s1 / 2);
        let (nrows, ncols) = self.grid.shape();
        if index.0 < h0 || index.1 < h1 {
            return None;
        }
        let start = (index.0 - h0, index.1 - h1);
        if start.0 > nrows || start.1 > ncols || s0 > nrows - start.0 || s1 > ncols - start.1 {
            return None;
        }
        Some(Neighborhood::View(self.grid.subview(start, self.neighbourhood_shape)))
    }

    /// The neighbourhood of `index`, each position resolved through the
    /// boundary policy into a grid of its own.
    pub fn get_neighbourhood_from_indices(&self, index: (usize, usize)) -> (r: Neighborhood<'_>)
        requires
            self.wf(),
        ensures
            r is Owned,
            r@ == self.neighbourhood(index.0 as int, index.1 as int),
    {
        let (s0, s1) = self.neighbourhood_shape;
        let n = self.neighbourhood_indices.len();
        let ghost target = self.neighbourhood(index.0 as int, index.1 as int);
        let mut cells: Vec<CellStateType> = Vec::new();
        let mut k: usize = 0;
        while k < n
            invariant
                self.wf(),
                n == self.neighbourhood_indices@.len(),
                n == target.cells.len(),
                target == self.neighbourhood(index.0 as int, index.1 as int),
                k <= n,
                cells@.len() == k,
                forall|t: int| 0 <= t < k ==> #[trigger] cells@[t] == target.cells[t],
            decreases n - k,
        {
            let (dr, dc) = self.neighbourhood_indices[k];
            proof {
                lemma_column_major(k as int, self.shape().0, self.shape().1);
            }
            let v = self.get_from_grid(index.0 as i128 + dr, index.1 as i128 + dc);
            cells.push(v);
            k = k + 1;
        }
        proof {
            assert(cells@ =~= target.cells);
        }
        Neighborhood::Owned(matrix_from_vec(s0, s1, cells))
    }

    /// The neighbourhood of `index`: read in place where it lies inside the
    /// grid, resolved through the boundary policy otherwise.
    pub fn get_neighbourhood(&self, index: (usize, usize)) -> (r: Neighborhood<'_>)
        requires
            self.wf(),
        ensures
            r@ == self.neighbourhood(index.0 as int, index.1 as int),
            r is View <==> self.interior(index.0 as int, index.1 as int),
    {
        match self.get_neighbourhood_from_view(index) {
            Some(n) => {
                proof {
                    let (r, c) = (index.0 as int, index.1 as int);
                    let (s0, s1) = self.shape();
                    let target = self.neighbourhood(r, c);
                    self.lemma_view_path_agrees(r, c);
                    assert forall|k: int| 0 <= k < s0 * s1 implies n@.cells[k]
                        == target.cells[k] by {
                        lemma_column_major(k, s0, s1);
                        assert(n@.at(k % s0, k / s0) == target.at(k % s0, k / s0));
                    }
                    assert(n@.cells =~= target.cells);
                }
                n
            },
            None => self.get_neighbourhood_from_indices(index),
        }
    }

    /// The state of cell `k`, in column-major order, in the next generation.
    fn next_cell(&self, k: usize) -> (r: CellStateType)
        requires
            self.wf(),
            k < self.current().cells.len(),
        ensures
            r == self.evolve(self.current()).cells[k as int],
    {
        let (nrows, ncols) = self.grid.shape();
        proof {
            lemma_column_major(k as int, nrows as int, ncols as int);
        }
        let (row, col) = (k % nrows, k / nrows);
        let n = self.get_neighbourhood((row, col));
        let current = self.grid.cell(row, col);
        self.rules.step(&n, current)
    }

    /// Advances the grid by one generation, unless paused. Every cell's next
    /// state is computed from the previous grid; the new grid then replaces
    /// it as a whole.
    pub fn step(&mut self)
        requires
            old(self).wf(),
        ensures
            final(self).wf(),
            final(self).rule() == old(self).rule(),
            final(self).mode() == old(self).mode(),
            final(self).shape() == old(self).shape(),
            final(self).is_paused() == old(self).is_paused(),
            old(self).is_paused() ==> final(self).current() == old(self).current(),
            !old(self).is_paused() ==> final(self).current() == old(self).evolve(
                old(self).current(),
            ),
    {
        if self.paused {
            return ;
        }
        let (nrows, ncols) = self.grid.shape();
        let cells = next_generation_parallel(self, nrows * ncols);
        proof {
            assert(cells@ =~= self.evolve(self.current()).cells);
        }
        self.grid = matrix_from_vec(nrows, ncols, cells);
    }

    /// The current generation.
    pub fn grid(&self) -> (r: &Grid)
        ensures
            r@ == self.current(),
    {
        &self.grid
    }

    /// The rule.
    pub fn rules(&self) -> (r: &R)
        ensures
            *r == self.rule(),
    {
        &self.rules
    }

    /// The boundary policy.
    pub fn retrieval_mode(&self) -> (r: RetrievalMode)
        ensures
            r == self.mode(),
    {
        self.retrieval_mode
    }

    /// Whether the engine is paused.
    pub fn paused(&self) -> (r: bool)
        ensures
            r == self.is_paused(),
    {
        self.paused
    }

    /// Pauses or resumes the engine.
    pub fn set_paused(&mut self, paused: bool)
        requires
            old(self).wf(),
        ensures
            final(self).wf(),
            final(self).is_paused() == paused,
            final(self).current() == old(self).current(),
            final(self).rule() == old(self).rule(),
            final(self).mode() == old(self).mode(),
            final(self).shape() == old(self).shape(),
    {
        self.paused = paused;
    }
}

} // verus!
