//! The matrix data model: a rows-by-columns grid of integer cells, held
//! row-major as a vector of row vectors.

use vstd::prelude::*;

verus! {

/// The mathematical view of a grid: the sequence of its row sequences.
pub open spec fn grid_view(m: Vec<Vec<i64>>) -> Seq<Seq<i64>> {
    Seq::new(m@.len(), |i: int| m@[i]@)
}

/// The column count of a grid; zero when there are no rows.
pub open spec fn grid_cols(g: Seq<Seq<i64>>) -> int {
    if g.len() == 0 {
        0
    } else {
        g[0].len() as int
    }
}

/// Every row has the same length: the grid is rectangular.
pub open spec fn rect(g: Seq<Seq<i64>>) -> bool {
    forall|i: int| 0 <= i < g.len() ==> (#[trigger] g[i]).len() == grid_cols(g)
}

/// The grid has exactly `rows` rows of exactly `cols` cells each.
pub open spec fn is_grid(g: Seq<Seq<i64>>, rows: int, cols: int) -> bool {
    g.len() == rows && forall|i: int| 0 <= i < g.len() ==> (#[trigger] g[i]).len() == cols
}

/// The cell the deterministic test-matrix generator puts at `(row, col)`.
pub open spec fn test_cell(row: int, col: int) -> i64 {
    ((row % 100 + col % 100) % 100) as i64
}

/// In a rectangular grid every row vector has the grid's column count.
pub proof fn lemma_row_len(m: Vec<Vec<i64>>, i: int)
    requires
        rect(grid_view(m)),
        0 <= i < m@.len(),
    ensures
        m@[i]@.len() == grid_cols(grid_view(m)),
{
    assert(grid_view(m)[i] == m@[i]@);
}

/// A row of `cols` zero cells.
fn zero_row(cols: usize) -> (r: Vec<i64>)
    ensures
        r@.len() == cols,
        forall|j: int| 0 <= j < cols ==> r@[j] == 0i64,
{
    let mut r: Vec<i64> = Vec::new();
    let mut j: usize = 0;
    while j < cols
        invariant
            j <= cols,
            r@.len() == j,
            forall|k: int| 0 <= k < j ==> r@[k] == 0i64,
        decreases cols - j,
    {
        r.push(0i64);
        j = j + 1;
    }
    r
}

/// A `rows` by `cols` grid of zero cells: the engine's pre-allocated,
/// zero-filled output buffer.
pub fn zero_grid(rows: usize, cols: usize) -> (m: Vec<Vec<i64>>)
    ensures
        is_grid(grid_view(m), rows as int, cols as int),
        forall|i: int, j: int|
            0 <= i < rows && 0 <= j < cols ==> grid_view(m)[i][j] == 0i64,
{
    let mut m: Vec<Vec<i64>> = Vec::new();
    let mut i: usize = 0;
    while i < rows
        invariant
            i <= rows,
            m@.len() == i,
            forall|k: int| 0 <= k < i ==> (#[trigger] m@[k])@.len() == cols,
            forall|k: int, j: int|
                0 <= k < i && 0 <= j < cols ==> #[trigger] m@[k]@[j] == 0i64,
        decreases rows - i,
    {
        m.push(zero_row(cols));
        i = i + 1;
    }
    m
}

/// A reproducible input grid: cell `(row, col)` holds `test_cell(row, col)`,
/// a value below one hundred, so that examples and tests run on known data.
pub fn generate_test_matrix(rows: usize, cols: usize) -> (m: Vec<Vec<i64>>)
    ensures
        is_grid(grid_view(m), rows as int, cols as int),
        rect(grid_view(m)),
        forall|i: int, j: int|
            0 <= i < rows && 0 <= j < cols ==> grid_view(m)[i][j] == test_cell(i, j),
{
    let mut m: Vec<Vec<i64>> = Vec::new();
    let mut i: usize = 0;
    while i < rows
        invariant
            i <= rows,
            m@.len() == i,
            forall|k: int| 0 <= k < i ==> (#[trigger] m@[k])@.len() == cols,
            forall|k: int, j: int|
                0 <= k < i && 0 <= j < cols ==> #[trigger] m@[k]@[j] == test_cell(k, j),
        decreases rows - i,
    {
        let mut row: Vec<i64> = Vec::new();
        let mut j: usize = 0;
        while j < cols
            invariant
                j <= cols,
                row@.len() == j,
                forall|k: int| 0 <= k < j ==> row@[k] == test_cell(i as int, k),
            decreases cols - j,
        {
            let v: usize = (i % 100 + j % 100) % 100;
            row.push(v as i64);
            j = j + 1;
        }
        m.push(row);
        i = i + 1;
    }
    m
}

} // verus!
