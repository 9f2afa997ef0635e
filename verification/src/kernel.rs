//! Kernels: pure per-cell transforms. A kernel may read any cell of the
//! input (element-wise, stencil- or dot-product-style) but never the output,
//! so cell values are independent of the order in which cells are processed.

use crate::grid::{grid_cols, grid_view, rect};
use vstd::prelude::*;

verus! {

/// A pure per-cell transform. `cell_spec` is the mathematical statement of
/// the transform and `cell` computes exactly it, so a run's output is a
/// function of the input alone.
pub trait Kernel: Sized {
    /// The inputs on which the kernel is defined (a dot-product kernel
    /// needs its second matrix to match the input's width; element-wise
    /// kernels accept everything).
    spec fn compatible(&self, input: Seq<Seq<i64>>) -> bool;

    /// What the kernel yields for the cell at `(row, col)` of `input`.
    spec fn cell_spec(&self, input: Seq<Seq<i64>>, row: int, col: int) -> i64;

    /// Compute one output cell.
    fn cell(&self, input: &Vec<Vec<i64>>, row: usize, col: usize) -> (r: i64)
        requires
            self.compatible(grid_view(*input)),
            rect(grid_view(*input)),
            row < input@.len(),
            col < grid_cols(grid_view(*input)),
        ensures
            r == self.cell_spec(grid_view(*input), row as int, col as int),
    ;
}

/// The identity kernel: every cell is returned unchanged, so a completed
/// run's output equals its input.
pub struct IdentityKernel;

impl Kernel for IdentityKernel {
    open spec fn compatible(&self, input: Seq<Seq<i64>>) -> bool {
        true
    }

    open spec fn cell_spec(&self, input: Seq<Seq<i64>>, row: int, col: int) -> i64 {
        input[row][col]
    }

    fn cell(&self, input: &Vec<Vec<i64>>, row: usize, col: usize) -> (r: i64) {
        proof {
            crate::grid::lemma_row_len(*input, row as int);
        }
        input[row][col]
    }
}

/// One step of the integer mixing round used by `IterativeKernel`.
pub open spec fn mix_step(v: i64) -> i64 {
    v.wrapping_mul(31).wrapping_add(7)
}

/// `n` mixing rounds applied to `v`.
pub open spec fn mix(v: i64, n: nat) -> i64
    decreases n,
{
    if n == 0 {
        v
    } else {
        mix_step(mix(v, (n - 1) as nat))
    }
}

/// A deliberately costly element-wise kernel: `rounds` integer mixing steps
/// per cell. The per-cell cost grows linearly with `rounds`, which makes
/// deadline behaviour easy to exercise.
pub struct IterativeKernel {
    pub rounds: usize,
}

impl Kernel for IterativeKernel {
    open spec fn compatible(&self, input: Seq<Seq<i64>>) -> bool {
        true
    }

    open spec fn cell_spec(&self, input: Seq<Seq<i64>>, row: int, col: int) -> i64 {
        mix(input[row][col], self.rounds as nat)
    }

    fn cell(&self, input: &Vec<Vec<i64>>, row: usize, col: usize) -> (r: i64) {
        proof {
            crate::grid::lemma_row_len(*input, row as int);
        }
        let mut v = input[row][col];
        let mut k: usize = 0;
        while k < self.rounds
            invariant
                k <= self.rounds,
                row < input@.len(),
                col < input@[row as int]@.len(),
                v == mix(input@[row as int]@[col as int], k as nat),
            decreases self.rounds - k,
        {
            v = v.wrapping_mul(31).wrapping_add(7);
            k = k + 1;
        }
        v
    }
}

/// The wrapping dot product of the first `k` terms of a row against column
/// `col` of the matrix `b`.
pub open spec fn dot(row: Seq<i64>, b: Seq<Seq<i64>>, col: int, k: nat) -> i64
    decreases k,
{
    if k == 0 {
        0i64
    } else {
        dot(row, b, col, (k - 1) as nat).wrapping_add(
            row[k - 1].wrapping_mul(b[k - 1][col]),
        )
    }
}

/// The row-by-matrix kernel of the matrix-multiply mode: cell `(row, col)`
/// is the wrapping dot product of input row `row` against column `col` of
/// the separately supplied matrix `b`. Chunking, cancellation and deadline
/// machinery are exactly those of the element-wise kernels; only the
/// per-cell cost differs.
pub struct DotKernel {
    pub b: Vec<Vec<i64>>,
}

impl Kernel for DotKernel {
    /// `b` must be rectangular with one row per input column and as many
    /// columns as the input, so every index of the dot product is in range.
    open spec fn compatible(&self, input: Seq<Seq<i64>>) -> bool {
        &&& rect(grid_view(self.b))
        &&& grid_view(self.b).len() == grid_cols(input)
        &&& grid_cols(grid_view(self.b)) == grid_cols(input)
    }

    open spec fn cell_spec(&self, input: Seq<Seq<i64>>, row: int, col: int) -> i64 {
        dot(input[row], grid_view(self.b), col, grid_cols(input) as nat)
    }

    fn cell(&self, input: &Vec<Vec<i64>>, row: usize, col: usize) -> (r: i64) {
        let n = self.b.len();
        let mut acc: i64 = 0;
        let mut k: usize = 0;
        while k < n
            invariant
                k <= n,
                n == grid_cols(grid_view(*input)),
                self.compatible(grid_view(*input)),
                rect(grid_view(*input)),
                row < input@.len(),
                col < grid_cols(grid_view(*input)),
                acc == dot(
                    input@[row as int]@,
                    grid_view(self.b),
                    col as int,
                    k as nat,
                ),
            decreases n - k,
        {
            proof {
                crate::grid::lemma_row_len(*input, row as int);
                crate::grid::lemma_row_len(self.b, k as int);
            }
            acc = acc.wrapping_add(input[row][k].wrapping_mul(self.b[k][col]));
            k = k + 1;
        }
        acc
    }
}

} // verus!
