//! A two-dimensional cellular-automaton engine.
//!
//! The grid is an nalgebra matrix of cell states. Each generation, every
//! cell's neighbourhood is read (in place when it lies inside the grid, else
//! resolved through the boundary policy) and handed to a rule, which gives the
//! cell's next state.
use vstd::prelude::*;

pub mod grid;
pub mod neighborhood;
pub mod engine;
pub mod rulesets;
pub mod laws;
pub mod renderer;

pub use grid::{CellMatrix, Grid, GridView};
pub use neighborhood::{Neighborhood, NeighborhoodIter};
pub use engine::{Engine, RetrievalMode, Rules};
pub use rulesets::{
    CountRule, FirstMatch, GameOfLife, LifeLike, Maze, Mazectric, PartialRule, Unchanged,
};

verus! {

/// The type of one cell's state.
pub type CellStateType = u8;

} // verus!
