use sph::{grid_shape, lattice_cells, Cell, GridShape, InitializationError, LATTICE_ORIGIN};

#[test]
fn zero_particles_are_refused() {
    assert_eq!(grid_shape(0), Err(InitializationError::NoParticles));
    assert_eq!(lattice_cells(0), Err(InitializationError::NoParticles));
}

#[test]
fn single_particle_lattice() {
    assert_eq!(grid_shape(1), Ok(GridShape { rows: 1, cols: 1 }));
    let (g, cells) = lattice_cells(1).unwrap();
    assert_eq!(g, GridShape { rows: 1, cols: 1 });
    assert_eq!(cells, vec![Cell { col: 10, row: 10 }]);
}

#[test]
fn small_counts_form_one_row() {
    assert_eq!(grid_shape(2), Ok(GridShape { rows: 1, cols: 2 }));
    assert_eq!(grid_shape(3), Ok(GridShape { rows: 1, cols: 3 }));
    assert_eq!(grid_shape(5), Ok(GridShape { rows: 1, cols: 5 }));
}

#[test]
fn default_request_gives_forty_by_thirty() {
    assert_eq!(grid_shape(1200), Ok(GridShape { rows: 30, cols: 40 }));
}

#[test]
fn count_rounds_up_to_full_columns() {
    assert_eq!(grid_shape(100), Ok(GridShape { rows: 8, cols: 13 }));
    let (g, cells) = lattice_cells(100).unwrap();
    assert_eq!(cells.len() as u64, g.rows * g.cols);
    assert_eq!(cells.len(), 104);
    assert_eq!(cells[103], Cell { col: 22, row: 17 });
}

#[test]
fn largest_request_shape() {
    let g = grid_shape(u32::MAX).unwrap();
    assert_eq!(g, GridShape { rows: 56755, cols: 75676 });
    assert!(g.rows * g.cols >= u32::MAX as u64);
    assert!(g.rows * (g.cols - 1) < u32::MAX as u64);
}

#[test]
fn cells_run_column_by_column() {
    let (_, cells) = lattice_cells(1200).unwrap();
    assert_eq!(cells.len(), 1200);
    assert_eq!(cells[0], Cell { col: LATTICE_ORIGIN, row: LATTICE_ORIGIN });
    assert_eq!(cells[1], Cell { col: 10, row: 11 });
    assert_eq!(cells[29], Cell { col: 10, row: 39 });
    assert_eq!(cells[30], Cell { col: 11, row: 10 });
    assert_eq!(cells[1199], Cell { col: 49, row: 39 });
}

#[test]
fn cells_are_distinct() {
    let (_, mut cells) = lattice_cells(1000).unwrap();
    let n = cells.len();
    cells.sort_by_key(|c| (c.col, c.row));
    cells.dedup();
    assert_eq!(cells.len(), n);
}
