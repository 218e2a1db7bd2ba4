use cellular_rustomata::{
    CellStateType, Engine, GameOfLife, Grid, Neighborhood, RetrievalMode, Unchanged,
};

/// A grid whose cell at (row, col) is `f(row, col)`.
fn grid_from_fn(nrows: usize, ncols: usize, f: impl Fn(usize, usize) -> CellStateType) -> Grid {
    let mut cells = Vec::new();
    for col in 0..ncols {
        for row in 0..nrows {
            cells.push(f(row, col));
        }
    }
    Grid::from_column_major(nrows, ncols, cells).expect("cells fill the grid")
}

fn numbered(nrows: usize, ncols: usize) -> Grid {
    grid_from_fn(nrows, ncols, |row, col| ((row * 10 + col) % 256) as CellStateType)
}

fn cells_of(n: &Neighborhood) -> Vec<Vec<CellStateType>> {
    (0..n.nrows())
        .map(|i| (0..n.ncols()).map(|j| *n.get((i, j)).unwrap()).collect())
        .collect()
}

fn grid_cells(g: &Grid) -> Vec<Vec<CellStateType>> {
    (0..g.nrows())
        .map(|i| (0..g.ncols()).map(|j| *g.get((i, j)).unwrap()).collect())
        .collect()
}

#[test]
fn tets_wrapping_neighborhood() -> Result<(), String> {
    let grid = grid_from_fn(9, 9, |row, col| (row * 10 + col) as CellStateType);
    let engine = Engine::new(grid, Unchanged, (3, 3), RetrievalMode::Wrapping)?;

    let n = engine.get_neighbourhood((0, 0));
    for i in 0..3 {
        for j in 0..3 {
            let expected: u8 = ((i + 8) % 9) * 10 + (j + 8) % 9;
            assert_eq!(*(n.get((i as usize, j as usize)).expect("")), expected);
        }
    }

    let n = engine.get_neighbourhood((8, 8));
    for i in 0..3 {
        for j in 0..3 {
            let expected: u8 = ((i + 7) % 9) * 10 + (j + 7) % 9;
            let actual: CellStateType = *(n.get((i as usize, j as usize)).expect(""));
            assert_eq!(actual, expected);
        }
    }
    Ok(())
}

#[test]
fn tets_dummy_iteration() -> Result<(), String> {
    let grid = grid_from_fn(9, 9, |row, col| (row * 10 + col) as CellStateType);
    let mut engine = Engine::new(
        grid_from_fn(9, 9, |row, col| (row * 10 + col) as CellStateType),
        Unchanged,
        (3, 3),
        RetrievalMode::Wrapping,
    )?;
    engine.step();
    let new_grid = &engine.grid;
    println!("before:\n{:?}", grid);
    println!("after:\n{:?}", new_grid);
    for i in 0..grid.ncols() {
        for j in 0..grid.nrows() {
            assert_eq!(grid.get((i, j)), new_grid.get((i, j)))
        }
    }
    Ok(())
}

#[test]
fn wrapping_matches_modular_arithmetic_everywhere() {
    for &(nrows, ncols, s0, s1) in &[(5, 7, 3, 3), (6, 4, 3, 3), (7, 9, 5, 5), (4, 8, 3, 5), (9, 6, 5, 1)] {
        let engine = Engine::new(numbered(nrows, ncols), Unchanged, (s0, s1), RetrievalMode::Wrapping)
            .unwrap();
        let (h0, h1) = (s0 as i64 / 2, s1 as i64 / 2);
        for r in 0..nrows {
            for c in 0..ncols {
                let n = engine.get_neighbourhood((r, c));
                assert_eq!((n.nrows(), n.ncols()), (s0, s1));
                for i in 0..s0 {
                    for j in 0..s1 {
                        let row = (r as i64 + i as i64 - h0).rem_euclid(nrows as i64) as usize;
                        let col = (c as i64 + j as i64 - h1).rem_euclid(ncols as i64) as usize;
                        assert_eq!(*n.get((i, j)).unwrap(), ((row * 10 + col) % 256) as u8);
                    }
                }
            }
        }
    }
}

#[test]
fn padded_reads_zero_outside_the_grid() {
    let engine = Engine::new(numbered(6, 5), Unchanged, (3, 3), RetrievalMode::Padded).unwrap();
    let n = engine.get_neighbourhood((0, 0));
    assert_eq!(cells_of(&n), vec![vec![0, 0, 0], vec![0, 0, 1], vec![0, 10, 11]]);
    let n = engine.get_neighbourhood((5, 4));
    assert_eq!(cells_of(&n), vec![vec![43, 44, 0], vec![53, 54, 0], vec![0, 0, 0]]);
    // the last row and column are inside the grid
    assert_eq!(engine.get_from_grid(5, 4), 54);
    assert_eq!(engine.get_from_grid(6, 4), 0);
    assert_eq!(engine.get_from_grid(5, 5), 0);
    assert_eq!(engine.get_from_grid(-1, 0), 0);
}

#[test]
fn wrapping_resolver_wraps_far_coordinates() {
    let engine = Engine::new(numbered(9, 9), Unchanged, (3, 3), RetrievalMode::Wrapping).unwrap();
    assert_eq!(engine.get_from_grid(-1, -1), 88);
    assert_eq!(engine.get_from_grid(-10, -19), 88);
    assert_eq!(engine.get_from_grid(9, 18), 0);
    assert_eq!(engine.get_from_grid(20, -3), 26);
    assert_eq!(engine.get_from_grid(i128::MIN, 0), numbered_at(i128::MIN.rem_euclid(9) as usize, 0));
}

fn numbered_at(row: usize, col: usize) -> u8 {
    ((row * 10 + col) % 256) as u8
}

#[test]
fn view_and_resolved_paths_agree_inside() {
    for &(nrows, ncols, s0, s1) in &[(9, 9, 3, 3), (8, 11, 5, 5), (7, 10, 3, 5), (12, 6, 5, 3)] {
        for mode in [RetrievalMode::Wrapping, RetrievalMode::Padded] {
            let engine = Engine::new(numbered(nrows, ncols), Unchanged, (s0, s1), mode).unwrap();
            let (h0, h1) = (s0 / 2, s1 / 2);
            for r in 0..nrows {
                for c in 0..ncols {
                    let interior = r >= h0 && c >= h1 && r - h0 + s0 <= nrows && c - h1 + s1 <= ncols;
                    let fast = engine.get_neighbourhood_from_view((r, c));
                    assert_eq!(fast.is_some(), interior);
                    if let Some(fast) = fast {
                        assert!(matches!(fast, Neighborhood::View(_)));
                        let slow = engine.get_neighbourhood_from_indices((r, c));
                        assert!(matches!(slow, Neighborhood::Owned(_)));
                        assert_eq!(cells_of(&fast), cells_of(&slow));
                        let fast_order: Vec<u8> = collect_iter(&fast);
                        let slow_order: Vec<u8> = collect_iter(&slow);
                        assert_eq!(fast_order, slow_order);
                    }
                }
            }
        }
    }
}

fn collect_iter(n: &Neighborhood) -> Vec<u8> {
    let mut it = n.iter();
    let mut out = Vec::new();
    while let Some(v) = it.next() {
        out.push(v);
    }
    out
}

#[test]
fn view_path_rejects_windows_touching_the_far_edge() {
    let engine = Engine::new(numbered(9, 9), Unchanged, (3, 3), RetrievalMode::Wrapping).unwrap();
    assert!(engine.get_neighbourhood_from_view((1, 1)).is_some());
    assert!(engine.get_neighbourhood_from_view((7, 7)).is_some());
    assert!(engine.get_neighbourhood_from_view((8, 4)).is_none());
    assert!(engine.get_neighbourhood_from_view((4, 8)).is_none());
    assert!(engine.get_neighbourhood_from_view((0, 4)).is_none());
    assert!(engine.get_neighbourhood_from_view((4, 0)).is_none());
    assert!(engine.get_neighbourhood_from_view((9, 4)).is_none());
    // an even shape reaches one further below its centre than above it
    let engine = Engine::new(numbered(9, 9), Unchanged, (4, 4), RetrievalMode::Padded).unwrap();
    assert!(engine.get_neighbourhood_from_view((7, 7)).is_some());
    assert!(engine.get_neighbourhood_from_view((8, 7)).is_none());
}

#[test]
fn neighbourhood_iterates_column_by_column() {
    let engine = Engine::new(numbered(9, 9), Unchanged, (3, 3), RetrievalMode::Wrapping).unwrap();
    let n = engine.get_neighbourhood((4, 4));
    assert_eq!(collect_iter(&n), vec![33, 43, 53, 34, 44, 54, 35, 45, 55]);
    let n = engine.get_neighbourhood((0, 0));
    assert_eq!(collect_iter(&n), vec![88, 8, 18, 80, 0, 10, 81, 1, 11]);
    assert_eq!(n.get((3, 0)), None);
    assert_eq!(n.get((0, 3)), None);
    assert_eq!(n.len(), 9);
    let engine = Engine::new(numbered(9, 9), Unchanged, (5, 3), RetrievalMode::Padded).unwrap();
    assert_eq!(engine.get_neighbourhood((0, 0)).len(), 15);
    assert_eq!(engine.get_neighbourhood((4, 4)).len(), 15);
}

#[test]
fn identity_rule_keeps_grid_over_many_steps() {
    for mode in [RetrievalMode::Wrapping, RetrievalMode::Padded] {
        let mut engine = Engine::new(numbered(6, 8), Unchanged, (3, 3), mode).unwrap();
        for _ in 0..5 {
            engine.step();
            assert_eq!(grid_cells(&engine.grid), grid_cells(&numbered(6, 8)));
        }
    }
}

fn single_cell(nrows: usize, ncols: usize, r: usize, c: usize) -> Grid {
    grid_from_fn(nrows, ncols, |row, col| if (row, col) == (r, c) { 1 } else { 0 })
}

#[test]
fn isolated_cell_dies_under_both_policies() {
    for mode in [RetrievalMode::Wrapping, RetrievalMode::Padded] {
        for &(r, c) in &[(0, 0), (2, 3), (4, 5), (0, 5), (4, 0)] {
            let mut engine = Engine::new(single_cell(5, 6, r, c), GameOfLife::new(), (3, 3), mode).unwrap();
            engine.step();
            assert_eq!(grid_cells(&engine.grid), vec![vec![0; 6]; 5]);
        }
    }
}

fn blinker() -> Grid {
    grid_from_fn(5, 5, |row, col| if row == 2 && (1..=3).contains(&col) { 1 } else { 0 })
}

#[test]
fn paused_step_leaves_grid_and_resumed_step_applies_one_generation() {
    let mut engine = Engine::new(blinker(), GameOfLife::new(), (3, 3), RetrievalMode::Padded).unwrap();
    engine.paused = true;
    engine.step();
    assert_eq!(grid_cells(&engine.grid), grid_cells(&blinker()));
    engine.paused = false;
    engine.step();
    let vertical = grid_from_fn(5, 5, |row, col| if col == 2 && (1..=3).contains(&row) { 1 } else { 0 });
    assert_eq!(grid_cells(&engine.grid), grid_cells(&vertical));
    engine.set_paused(true);
    engine.step();
    assert_eq!(grid_cells(&engine.grid), grid_cells(&vertical));
    engine.set_paused(false);
    engine.step();
    assert_eq!(grid_cells(&engine.grid), grid_cells(&blinker()));
}

#[test]
fn construction_requires_a_strictly_smaller_neighbourhood() {
    assert!(Engine::new(numbered(9, 9), Unchanged, (9, 3), RetrievalMode::Wrapping).is_err());
    assert!(Engine::new(numbered(9, 9), Unchanged, (3, 9), RetrievalMode::Wrapping).is_err());
    assert!(Engine::new(numbered(9, 9), Unchanged, (10, 10), RetrievalMode::Padded).is_err());
    let e = Engine::new(numbered(9, 9), Unchanged, (8, 8), RetrievalMode::Padded).unwrap();
    assert_eq!(e.neighbourhood_shape(), (8, 8));
    assert!(!e.paused);
    let err = Engine::new(numbered(3, 4), Unchanged, (3, 3), RetrievalMode::Padded).err().unwrap();
    assert_eq!(err, "neighbourhood shape must be strictly smaller than the grid shape");
}

#[test]
fn empty_neighbourhood_shape_is_allowed() {
    let mut engine = Engine::new(numbered(3, 3), GameOfLife::new(), (0, 0), RetrievalMode::Wrapping).unwrap();
    let n = engine.get_neighbourhood((1, 1));
    assert_eq!((n.nrows(), n.ncols()), (0, 0));
    assert!(collect_iter(&n).is_empty());
    engine.step();
    assert_eq!(grid_cells(&engine.grid), vec![vec![0; 3]; 3]);
}

#[test]
fn grid_is_column_major() {
    let g = Grid::from_column_major(2, 3, vec![1, 2, 3, 4, 5, 6]).unwrap();
    assert_eq!(g.shape(), (2, 3));
    assert_eq!(grid_cells(&g), vec![vec![1, 3, 5], vec![2, 4, 6]]);
    assert_eq!(g.get((2, 0)), None);
    assert_eq!(g.cell(1, 2), 6);
    assert!(Grid::from_column_major(2, 3, vec![1, 2, 3]).is_none());
    assert!(Grid::from_column_major(usize::MAX, 3, vec![]).is_none());
    let v = g.subview((0, 1), (2, 2));
    assert_eq!(v.shape(), (2, 2));
    assert_eq!(v.get((1, 0)), Some(&4));
    assert_eq!(v.get((0, 1)), Some(&5));
    assert_eq!(v.get((2, 0)), None);
}

#[test]
fn neighbourhood_is_read_in_place_exactly_inside_the_grid() {
    for mode in [RetrievalMode::Wrapping, RetrievalMode::Padded] {
        let engine = Engine::new(numbered(7, 8), Unchanged, (3, 5), mode).unwrap();
        for r in 0..7 {
            for c in 0..8 {
                let inside = r >= 1 && r + 1 < 7 && c >= 2 && c + 2 < 8;
                let n = engine.get_neighbourhood((r, c));
                assert_eq!(matches!(n, Neighborhood::View(_)), inside);
            }
        }
    }
}

#[test]
fn engine_getters_read_its_state() {
    let mut engine = Engine::new(numbered(5, 5), GameOfLife::new(), (3, 3), RetrievalMode::Padded).unwrap();
    assert_eq!(grid_cells(engine.grid()), grid_cells(&numbered(5, 5)));
    assert_eq!(engine.retrieval_mode(), RetrievalMode::Padded);
    assert!(!engine.paused());
    engine.set_paused(true);
    assert!(engine.paused());
    let _rule: &GameOfLife = engine.rules();
}

#[test]
fn equal_extents_are_not_strictly_smaller() {
    let grid = Grid::from_column_major(3, 3, vec![0; 9]).unwrap();
    let result = Engine::new(grid, GameOfLife::new(), (3, 3), RetrievalMode::Wrapping);
    assert_eq!(
        result.err(),
        Some(String::from("neighbourhood shape must be strictly smaller than the grid shape"))
    );
}
