//! The engine: validate the configuration, zero-fill the output, create a
//! fresh cancellation token, plan the chunks, then process rows in chunk
//! order, polling the token and the deadline before every row. A run that
//! is cut short leaves every unreached row at its zero fill and counts only
//! the chunks whose last row finished.

use crate::chunk::{
    Chunk, finished_chunks, lemma_finished_all, lemma_finished_none, lemma_tiles_ordered, tiles,
};
use crate::clock::{clock_now, elapsed_millis};
use crate::config::{ComputeConfig, ConfigError, partition};
use crate::grid::{grid_cols, grid_view, is_grid, lemma_row_len, rect, zero_grid};
use crate::kernel::{DotKernel, Kernel};
use crate::token::CancellationToken;
use vstd::prelude::*;

verus! {

/// What one invocation hands back: the output grid, whether every chunk
/// finished, the wall-clock time the run took, and how many chunks finished.
pub struct ComputeResult {
    /// The output grid; unreached rows keep their zero fill.
    pub output: Vec<Vec<i64>>,
    /// True exactly when the cancellation token never fired.
    pub completed: bool,
    /// Wall-clock milliseconds from start to return.
    pub elapsed_ms: u64,
    /// How many chunks had their last row finish before cancellation.
    pub chunks_processed: usize,
}

/// The frontier statement of a run: all rows below `done` hold exactly what
/// the kernel computes, all rows from `done` on keep their zero fill, the
/// run is complete exactly when the frontier is the whole matrix, the chunk
/// accounting counts the chunks entirely below the frontier, and a zero
/// deadline stops the run before its first row.
pub open spec fn frontier_post<K: Kernel>(
    k: K,
    cfg: ComputeConfig,
    input: Seq<Seq<i64>>,
    res: ComputeResult,
    done: int,
) -> bool {
    let rows = input.len() as int;
    let cols = grid_cols(input);
    let out = grid_view(res.output);
    &&& 0 <= done <= rows
    &&& forall|r: int, c: int|
        0 <= r < done && 0 <= c < cols ==> out[r][c] == k.cell_spec(input, r, c)
    &&& forall|r: int, c: int| done <= r < rows && 0 <= c < cols ==> out[r][c] == 0i64
    &&& (res.completed <==> done == rows)
    &&& res.chunks_processed == finished_chunks(cfg.plan(rows), done)
    &&& (cfg.deadline_ms == 0 ==> done == 0)
}

/// Everything a successful run guarantees: the output is a grid of the
/// input's dimensions and some frontier `done` satisfies `frontier_post`.
pub open spec fn process_post<K: Kernel>(
    k: K,
    cfg: ComputeConfig,
    input: Seq<Seq<i64>>,
    res: ComputeResult,
) -> bool {
    &&& is_grid(grid_view(res.output), input.len() as int, grid_cols(input))
    &&& exists|done: int| frontier_post(k, cfg, input, res, done)
}

/// Fill row `row` of the output with the kernel's values for that row,
/// leaving every other row untouched.
fn process_row<K: Kernel>(
    kernel: &K,
    input: &Vec<Vec<i64>>,
    output: &mut Vec<Vec<i64>>,
    row: usize,
)
    requires
        rect(grid_view(*input)),
        kernel.compatible(grid_view(*input)),
        row < input@.len(),
        is_grid(grid_view(*old(output)), input@.len() as int, grid_cols(grid_view(*input))),
    ensures
        is_grid(grid_view(*final(output)), input@.len() as int, grid_cols(grid_view(*input))),
        forall|c: int|
            0 <= c < grid_cols(grid_view(*input)) ==> grid_view(*final(output))[row as int][c]
                == kernel.cell_spec(grid_view(*input), row as int, c),
        forall|i: int|
            0 <= i < input@.len() && i != row ==> grid_view(*final(output))[i] == grid_view(
                *old(output),
            )[i],
{
    proof {
        lemma_row_len(*input, row as int);
    }
    let cols = input[row].len();
    let mut new_row: Vec<i64> = Vec::new();
    let mut c: usize = 0;
    while c < cols
        invariant
            rect(grid_view(*input)),
            kernel.compatible(grid_view(*input)),
            row < input@.len(),
            cols == grid_cols(grid_view(*input)),
            c <= cols,
            new_row@.len() == c,
            forall|j: int|
                0 <= j < c ==> new_row@[j] == kernel.cell_spec(
                    grid_view(*input),
                    row as int,
                    j,
                ),
        decreases cols - c,
    {
        let v = kernel.cell(input, row, c);
        new_row.push(v);
        c = c + 1;
    }
    output[row] = new_row;
    proof {
        assert forall|i: int|
            0 <= i < input@.len() && i != row implies grid_view(*output)[i] == grid_view(
            *old(output),
        )[i] by {
            assert(grid_view(*output)[i] == output@[i]@);
            assert(grid_view(*old(output))[i] == old(output)@[i]@);
        }
        assert(grid_view(*output)[row as int] == new_row@);
        assert forall|i: int|
            0 <= i < input@.len() implies (#[trigger] grid_view(*output)[i]).len() == grid_cols(
            grid_view(*input),
        ) by {
            if i != row {
                assert(grid_view(*old(output))[i].len() == grid_cols(grid_view(*input)));
            }
        }
    }
}

/// The engine of one or more runs over a fixed configuration.
pub struct ParallelMatrixProcessor {
    /// The immutable configuration every run of this processor uses.
    pub config: ComputeConfig,
}

impl ParallelMatrixProcessor {
    /// An engine that will run with the given configuration.
    pub fn new(config: ComputeConfig) -> (p: ParallelMatrixProcessor)
        ensures
            p.config == config,
    {
        ParallelMatrixProcessor { config }
    }

    /// Poll for cooperative cancellation: the shared token, then the
    /// deadline. With a zero deadline this always says stop, so a zero
    /// deadline processes no row at all.
    fn should_stop(&self, token: &CancellationToken, start: &std::time::Instant) -> (r: bool)
        ensures
            self.config.deadline_ms == 0 ==> r,
    {
        if token.is_cancelled() {
            true
        } else {
            elapsed_millis(start) >= self.config.deadline_ms
        }
    }

    /// One full invocation: validate, zero-fill, plan, then process rows in
    /// chunk order under the deadline, and account for what finished.
    ///
    /// A run never writes a row it did not fully compute, never touches a
    /// row beyond the frontier it reached, and reports `completed` exactly
    /// when every row was processed.
    pub fn process_matrix<K: Kernel>(&self, kernel: &K, input: &Vec<Vec<i64>>) -> (r: Result<
        ComputeResult,
        ConfigError,
    >)
        requires
            rect(grid_view(*input)),
            kernel.compatible(grid_view(*input)),
        ensures
            match r {
                Result::Ok(res) => self.config.valid() && process_post(
                    *kernel,
                    self.config,
                    grid_view(*input),
                    res,
                ),
                Result::Err(e) => !self.config.valid() && e == (if self.config.num_threads == 0 {
                    ConfigError::NoThreads
                } else {
                    ConfigError::EmptyChunks
                }),
            },
    {
        match self.config.validate() {
            Err(e) => {
                return Err(e);
            },
            Ok(()) => {},
        }
        let ghost g = grid_view(*input);
        let rows = input.len();
        let cols = if rows == 0 {
            0
        } else {
            input[0].len()
        };
        let mut output = zero_grid(rows, cols);
        let token = CancellationToken::new();
        let start = clock_now();
        let chunks = partition(rows, &self.config);
        let mut done: usize = 0;
        let mut stopped = false;
        while done < rows && !stopped
            invariant
                rows == input@.len(),
                cols == grid_cols(g),
                g == grid_view(*input),
                rect(g),
                kernel.compatible(g),
                done <= rows,
                stopped ==> done < rows,
                is_grid(grid_view(output), rows as int, cols as int),
                forall|r: int, c: int|
                    0 <= r < done && 0 <= c < cols ==> grid_view(output)[r][c]
                        == kernel.cell_spec(g, r, c),
                forall|r: int, c: int|
                    done <= r < rows && 0 <= c < cols ==> grid_view(output)[r][c] == 0i64,
                self.config.deadline_ms == 0 ==> done == 0,
            decreases rows - done, if stopped {
                0int
            } else {
                1int
            },
        {
            if self.should_stop(&token, &start) {
                token.cancel();
                stopped = true;
            } else {
                process_row(kernel, input, &mut output, done);
                done = done + 1;
            }
        }
        let elapsed_ms = elapsed_millis(&start);
        let chunks_processed = crate::chunk::count_finished(&chunks, done);
        let completed = !stopped;
        let res = ComputeResult { output, completed, elapsed_ms, chunks_processed };
        proof {
            assert(frontier_post(*kernel, self.config, g, res, done as int));
        }
        Ok(res)
    }

    /// The matrix-multiply mode: cell `(r, c)` of the output is the wrapping
    /// dot product of row `r` of `a` against column `c` of `b`. Chunking,
    /// cancellation and deadline semantics are exactly those of
    /// `process_matrix`.
    pub fn matrix_multiply(&self, a: &Vec<Vec<i64>>, b: Vec<Vec<i64>>) -> (r: Result<
        ComputeResult,
        ConfigError,
    >)
        requires
            rect(grid_view(*a)),
            rect(grid_view(b)),
            grid_view(b).len() == grid_cols(grid_view(*a)),
            grid_cols(grid_view(b)) == grid_cols(grid_view(*a)),
        ensures
            match r {
                Result::Ok(res) => self.config.valid() && process_post(
                    (DotKernel { b }),
                    self.config,
                    grid_view(*a),
                    res,
                ),
                Result::Err(e) => !self.config.valid() && e == (if self.config.num_threads == 0 {
                    ConfigError::NoThreads
                } else {
                    ConfigError::EmptyChunks
                }),
            },
    {
        let kernel = DotKernel { b };
        self.process_matrix(&kernel, a)
    }
}

/// Law: a completed run equals the single-threaded reference run, cell by
/// cell, and counts every chunk as processed.
pub proof fn lemma_completed_matches_reference<K: Kernel>(
    k: K,
    cfg: ComputeConfig,
    input: Seq<Seq<i64>>,
    res: ComputeResult,
)
    requires
        cfg.valid(),
        input.len() <= usize::MAX,
        process_post(k, cfg, input, res),
        res.completed,
    ensures
        forall|r: int, c: int|
            0 <= r < input.len() && 0 <= c < grid_cols(input) ==> grid_view(res.output)[r][c]
                == k.cell_spec(input, r, c),
        res.chunks_processed == cfg.plan(input.len() as int).len(),
{
    let rows = input.len() as int;
    let done = choose|done: int| frontier_post(k, cfg, input, res, done);
    assert(done == rows);
    let cs = cfg.plan(rows);
    lemma_plan_tiles(cfg, rows);
    assert forall|i: int| 0 <= i < cs.len() implies (#[trigger] cs[i]).end_row <= rows by {
        if i < cs.len() - 1 {
            lemma_tiles_ordered(cs, rows, i, cs.len() - 1);
        }
    }
    lemma_finished_all(cs, rows);
}

/// Law: two completed runs with the same kernel, configuration and input
/// have identical output, cell for cell, and identical accounting.
pub proof fn lemma_completed_deterministic<K: Kernel>(
    k: K,
    cfg: ComputeConfig,
    input: Seq<Seq<i64>>,
    res1: ComputeResult,
    res2: ComputeResult,
)
    requires
        cfg.valid(),
        input.len() <= usize::MAX,
        process_post(k, cfg, input, res1),
        process_post(k, cfg, input, res2),
        res1.completed,
        res2.completed,
    ensures
        grid_view(res1.output) == grid_view(res2.output),
        res1.chunks_processed == res2.chunks_processed,
{
    lemma_completed_matches_reference(k, cfg, input, res1);
    lemma_completed_matches_reference(k, cfg, input, res2);
    let g1 = grid_view(res1.output);
    let g2 = grid_view(res2.output);
    assert forall|r: int| 0 <= r < input.len() implies g1[r] =~= g2[r] by {
        assert(g1[r].len() == grid_cols(input));
        assert(g2[r].len() == grid_cols(input));
        assert forall|c: int| 0 <= c < grid_cols(input) implies g1[r][c] == g2[r][c] by {
            assert(g1[r][c] == k.cell_spec(input, r, c));
            assert(g2[r][c] == k.cell_spec(input, r, c));
        }
    }
    assert(g1 =~= g2);
}

/// Law: with a zero deadline and a non-empty matrix a run completes
/// nothing: `completed` is false, no chunk counts as processed, and every
/// cell keeps its zero fill.
pub proof fn lemma_zero_deadline<K: Kernel>(
    k: K,
    cfg: ComputeConfig,
    input: Seq<Seq<i64>>,
    res: ComputeResult,
)
    requires
        cfg.valid(),
        input.len() <= usize::MAX,
        process_post(k, cfg, input, res),
        cfg.deadline_ms == 0,
        input.len() > 0,
    ensures
        !res.completed,
        res.chunks_processed == 0,
        forall|r: int, c: int|
            0 <= r < input.len() && 0 <= c < grid_cols(input) ==> grid_view(res.output)[r][c]
                == 0i64,
{
    let rows = input.len() as int;
    let done = choose|done: int| frontier_post(k, cfg, input, res, done);
    assert(done == 0);
    let cs = cfg.plan(rows);
    lemma_plan_tiles(cfg, rows);
    assert forall|i: int| 0 <= i < cs.len() implies (#[trigger] cs[i]).end_row > 0 by {}
    lemma_finished_none(cs, 0);
}

/// Law: a run over an empty matrix completes at once: there is nothing to
/// process, no chunk exists, and the run counts as complete.
pub proof fn lemma_empty_matrix<K: Kernel>(
    k: K,
    cfg: ComputeConfig,
    input: Seq<Seq<i64>>,
    res: ComputeResult,
)
    requires
        cfg.valid(),
        process_post(k, cfg, input, res),
        input.len() == 0,
    ensures
        res.completed,
        res.chunks_processed == 0,
        grid_view(res.output).len() == 0,
{
    let done = choose|done: int| frontier_post(k, cfg, input, res, done);
    assert(done == 0);
    lemma_plan_tiles(cfg, 0);
    assert(cfg.plan(0).len() == 0);
}

/// A valid configuration always plans a tiling of the row range.
pub proof fn lemma_plan_tiles(cfg: ComputeConfig, rows: int)
    requires
        cfg.valid(),
        0 <= rows <= usize::MAX,
    ensures
        tiles(cfg.plan(rows), rows),
{
    match cfg.granularity {
        crate::config::Granularity::ThreadCount => {
            crate::chunk::lemma_equal_plan_tiles(rows, cfg.num_threads as int);
        },
        crate::config::Granularity::ChunkSize(s) => {
            crate::chunk::lemma_fixed_plan_tiles(rows, s as int);
        },
    }
}

} // verus!
