//! Seeding of a two-dimensional particle lattice for a smoothed particle
//! hydrodynamics simulation.
//!
//! The lattice is laid out from a requested particle count: a number of rows
//! close to `sqrt(3/4 * count)` (a 4:3 block, wider than it is tall) and as
//! many columns as are needed to hold at least the requested count. Cells are
//! numbered column by column, each column filled from its first row to its
//! last, and sit `LATTICE_ORIGIN` cells in from the corner of the domain.

mod lattice;

pub use lattice::{
    cell_at, grid_shape, lattice_cells, lemma_cells_distinct, lemma_holds_requested_count, lemma_row_count_unique,
    Cell, GridShape, InitializationError, LATTICE_ORIGIN,
};
