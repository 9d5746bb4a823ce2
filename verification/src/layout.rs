//! The cells of a grid layout: which row and column each child takes.
use vstd::prelude::*;

verus! {

/// The grid cell of child `idx` in a grid of `cols` columns: children fill
/// the grid row by row.
pub open spec fn cell_of(idx: int, cols: int) -> (usize, usize) {
    ((idx / cols) as usize, (idx % cols) as usize)
}

/// The cells of `count` children in a grid of `cols` columns, row by row,
/// without a limit on the number of rows.
pub fn grid_cells(count: usize, cols: usize) -> (cells: Vec<(usize, usize)>)
    requires
        cols >= 1,
    ensures
        cells@.len() == count,
        forall|i: int| 0 <= i < count ==> #[trigger] cells@[i] == cell_of(i, cols as int),
{
    let mut cells: Vec<(usize, usize)> = Vec::new();
    let mut idx: usize = 0;
    while idx < count
        invariant
            cols >= 1,
            idx <= count,
            cells@.len() == idx,
            forall|i: int| 0 <= i < idx ==> #[trigger] cells@[i] == cell_of(i, cols as int),
        decreases count - idx,
    {
        cells.push((idx / cols, idx % cols));
        idx = idx + 1;
    }
    cells
}

/// The cells of the children of a grid of `cols` columns and `rows` rows,
/// row by row; children past the last cell get none.
pub fn grid_cells_bounded(count: usize, cols: usize, rows: usize) -> (cells: Vec<(usize, usize)>)
    requires
        cols >= 1,
        rows >= 1,
        cols * rows <= usize::MAX,
    ensures
        cells@.len() == if count < cols * rows {
            count as int
        } else {
            cols * rows
        },
        forall|i: int| 0 <= i < cells@.len() ==> #[trigger] cells@[i] == cell_of(i, cols as int),
{
    let mut cells: Vec<(usize, usize)> = Vec::new();
    let mut idx: usize = 0;
    let capacity = cols * rows;
    while idx < count && idx < capacity
        invariant
            cols >= 1,
            capacity == cols * rows,
            idx <= count,
            idx <= capacity,
            cells@.len() == idx,
            forall|i: int| 0 <= i < idx ==> #[trigger] cells@[i] == cell_of(i, cols as int),
        decreases count - idx,
    {
        cells.push((idx / cols, idx % cols));
        idx = idx + 1;
    }
    cells
}

/// Each child's cell lies in the grid, and reading the cells row by row
/// gives the children back in order: the cell of child `idx` is row
/// `idx / cols`, column `idx % cols`, with `row * cols + col == idx`.
pub proof fn lemma_cell_in_grid(idx: int, cols: int, rows: int)
    requires
        cols >= 1,
        rows >= 1,
        0 <= idx < cols * rows,
    ensures
        (idx / cols) * cols + idx % cols == idx,
        0 <= idx % cols < cols,
        0 <= idx / cols < rows,
        idx <= usize::MAX ==> {
            &&& cell_of(idx, cols).0 * cols + cell_of(idx, cols).1 == idx
            &&& cell_of(idx, cols).1 < cols
            &&& cell_of(idx, cols).0 < rows
        },
{
    assert((idx / cols) * cols + idx % cols == idx) by (nonlinear_arith)
        requires
            cols >= 1,
    ;
    assert(0 <= idx % cols < cols) by (nonlinear_arith)
        requires
            cols >= 1,
    ;
    assert(0 <= idx / cols < rows) by (nonlinear_arith)
        requires
            cols >= 1,
            rows >= 1,
            0 <= idx < cols * rows,
    ;
    assert(idx / cols <= idx) by (nonlinear_arith)
        requires
            cols >= 1,
            idx >= 0,
    ;
}

} // verus!
