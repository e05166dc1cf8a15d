use vstd::arithmetic::div_mod::{lemma_fundamental_div_mod, lemma_fundamental_div_mod_converse};
use vstd::prelude::*;

verus! {

/// Index of the first lattice column and of the first lattice row.
pub const LATTICE_ORIGIN: u64 = 10;

/// Why a lattice could not be laid out.
#[derive(Clone, Copy, Debug, PartialEq, Eq, Structural)]
pub enum InitializationError {
    /// A lattice of zero particles was requested.
    NoParticles,
}

/// Number of rows and columns of a lattice.
#[derive(Clone, Copy, Debug, PartialEq, Eq, Structural)]
pub struct GridShape {
    pub rows: u64,
    pub cols: u64,
}

/// Integer position of one particle on the lattice, in units of the
/// smoothing radius.
#[derive(Clone, Copy, Debug, PartialEq, Eq, Structural)]
pub struct Cell {
    pub col: u64,
    pub row: u64,
}

/// `rows` is the row count for a request of `count` particles: the largest
/// `r` with `4 r^2 <= 3 count`, and at least one.
pub open spec fn is_row_count(count: nat, rows: nat) -> bool {
    &&& rows >= 1
    &&& (rows == 1 || 4 * rows * rows <= 3 * count)
    &&& 4 * (rows + 1) * (rows + 1) > 3 * count
}

/// A request of `count` particles has one row count only.
pub proof fn lemma_row_count_unique(count: nat, a: nat, b: nat)
    requires
        is_row_count(count, a),
        is_row_count(count, b),
    ensures
        a == b,
{
    assert(a == b) by (nonlinear_arith)
        requires
            is_row_count(count, a),
            is_row_count(count, b),
    ;
}

/// Columns needed to hold `count` particles in `rows` rows (rounded up).
pub open spec fn col_count(count: nat, rows: nat) -> nat
    recommends
        rows > 0,
{
    ((count + rows - 1) / (rows as int)) as nat
}

/// Lays out the rows and columns for a request of `count` particles.
pub fn grid_shape(count: u32) -> (r: Result<GridShape, InitializationError>)
    ensures
        count == 0 <==> r is Err,
        r is Err ==> r == Err::<GridShape, InitializationError>(InitializationError::NoParticles),
        r matches Ok(g) ==> {
            &&& is_row_count(count as nat, g.rows as nat)
            &&& g.cols == col_count(count as nat, g.rows as nat)
        },
{
    if count == 0 {
        return Err(InitializationError::NoParticles);
    }
    let target: u64 = 3 * (count as u64);
    let mut rows: u64 = 1;
    while 4 * (rows + 1) * (rows + 1) <= target
        invariant
            target == 3 * count,
            count > 0,
            1 <= rows < 0x10000,
            rows == 1 || 4 * rows * rows <= target,
            4 * (rows + 1) * (rows + 1) < 0x10_0000_0000,
        decreases 0x10000 - rows,
    {
        rows = rows + 1;
        assert(rows < 0x10000 && 4 * (rows + 1) * (rows + 1) < 0x10_0000_0000) by (nonlinear_arith)
            requires
                4 * rows * rows <= target,
                target < 0x3_0000_0000,
        ;
    }
    let cols: u64 = ((count as u64) + rows - 1) / rows;
    Ok(GridShape { rows, cols })
}

/// The cell that holds the `k`-th particle of a lattice with `rows` rows.
pub open spec fn cell_at(rows: nat, k: nat) -> Cell
    recommends
        rows > 0,
{
    Cell {
        col: (LATTICE_ORIGIN + k / rows) as u64,
        row: (LATTICE_ORIGIN + k % rows) as u64,
    }
}

/// Lays out the lattice for a request of `count` particles: its shape and
/// its cells, column by column.
pub fn lattice_cells(count: u32) -> (r: Result<(GridShape, Vec<Cell>), InitializationError>)
    ensures
        count == 0 <==> r is Err,
        r is Err ==> r == Err::<(GridShape, Vec<Cell>), InitializationError>(
            InitializationError::NoParticles,
        ),
        r matches Ok((g, cells)) ==> {
            &&& is_row_count(count as nat, g.rows as nat)
            &&& g.cols == col_count(count as nat, g.rows as nat)
            &&& cells@.len() == g.rows * g.cols
            &&& forall|k: int|
                0 <= k < cells@.len() ==> #[trigger] cells@[k] == cell_at(g.rows as nat, k as nat)
        },
{
    let g = match grid_shape(count) {
        Ok(g) => g,
        Err(e) => return Err(e),
    };
    let rows = g.rows;
    let cols = g.cols;
    assert(cols <= count) by (nonlinear_arith)
        requires
            rows >= 1,
            count >= 1,
            cols == (count + rows - 1) / (rows as int),
    ;
    assert(rows <= count) by (nonlinear_arith)
        requires
            rows >= 1,
            rows == 1 || 4 * rows * rows <= 3 * count,
            count >= 1,
    ;
    let mut cells: Vec<Cell> = Vec::new();
    let mut c: u64 = 0;
    while c < cols
        invariant
            1 <= rows <= count,
            cols <= count,
            c <= cols,
            cells@.len() == c * rows,
            forall|k: int|
                0 <= k < cells@.len() ==> #[trigger] cells@[k] == cell_at(rows as nat, k as nat),
        decreases cols - c,
    {
        let mut r: u64 = 0;
        while r < rows
            invariant
                1 <= rows <= count,
                c < cols <= count,
                r <= rows,
                cells@.len() == c * rows + r,
                forall|k: int|
                    0 <= k < cells@.len() ==> #[trigger] cells@[k] == cell_at(
                        rows as nat,
                        k as nat,
                    ),
            decreases rows - r,
        {
            proof {
                lemma_fundamental_div_mod_converse(
                    (c * rows + r) as int,
                    rows as int,
                    c as int,
                    r as int,
                );
            }
            cells.push(Cell { col: LATTICE_ORIGIN + c, row: LATTICE_ORIGIN + r });
            r = r + 1;
        }
        assert(cells@.len() == (c + 1) * rows) by (nonlinear_arith)
            requires
                cells@.len() == c * rows + rows,
        ;
        c = c + 1;
    }
    assert(cells@.len() == rows * cols) by (nonlinear_arith)
        requires
            cells@.len() == cols * rows,
    ;
    Ok((g, cells))
}

/// A lattice laid out for `count` particles holds at least `count` of them,
/// and fewer than `count` once its last column is taken away.
pub proof fn lemma_holds_requested_count(count: nat, rows: nat)
    requires
        count > 0,
        is_row_count(count, rows),
    ensures
        rows * col_count(count, rows) >= count,
        rows * (col_count(count, rows) - 1) < count,
{
    let n = count + rows - 1;
    let q = col_count(count, rows) as int;
    lemma_fundamental_div_mod(n as int, rows as int);
    assert(n == rows * q + n % (rows as int));
    assert(0 <= n % (rows as int) < rows);
    assert(rows * (q - 1) == rows * q - rows) by (nonlinear_arith);
}

/// No two particles of one lattice share a cell.
pub proof fn lemma_cells_distinct(count: nat, rows: nat, i: nat, j: nat)
    requires
        count > 0,
        count <= u32::MAX,
        is_row_count(count, rows),
        i < j < rows * col_count(count, rows),
    ensures
        cell_at(rows, i) != cell_at(rows, j),
{
    let cols = col_count(count, rows);
    assert(cols <= count) by (nonlinear_arith)
        requires
            rows >= 1,
            count >= 1,
            cols == (count + rows - 1) / (rows as int),
    ;
    assert(rows <= count) by (nonlinear_arith)
        requires
            rows >= 1,
            rows == 1 || 4 * rows * rows <= 3 * count,
            count >= 1,
    ;
    lemma_fundamental_div_mod(i as int, rows as int);
    lemma_fundamental_div_mod(j as int, rows as int);
    let (qi, ri) = (i as int / rows as int, i as int % rows as int);
    let (qj, rj) = (j as int / rows as int, j as int % rows as int);
    assert(qi < cols && qj < cols) by (nonlinear_arith)
        requires
            i == rows * qi + ri,
            j == rows * qj + rj,
            0 <= ri,
            0 <= rj,
            rows >= 1,
            i < rows * cols,
            j < rows * cols,
    ;
    assert(cell_at(rows, i).col == LATTICE_ORIGIN + qi);
    assert(cell_at(rows, j).col == LATTICE_ORIGIN + qj);
    assert(cell_at(rows, i).row == LATTICE_ORIGIN + ri);
    assert(cell_at(rows, j).row == LATTICE_ORIGIN + rj);
    if qi == qj && ri == rj {
        assert(i == j);
    }
}

} // verus!
