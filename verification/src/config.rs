//! The caller-supplied configuration of a run: how many worker threads, the
//! wall-clock deadline in milliseconds, and which granularity drives the
//! chunk plan. Validation happens before any work is planned; an invalid
//! configuration fails the whole call and creates no partial state.

use crate::chunk::{Chunk, equal_plan, fixed_plan, partition_equal, partition_fixed, tiles};
use vstd::prelude::*;

verus! {

/// Which granularity drives the chunk plan: exactly one mode is active per
/// configuration.
#[derive(Clone, Copy, PartialEq, Eq, Structural, Debug)]
pub enum Granularity {
    /// As many chunks as worker threads, split as evenly as possible.
    ThreadCount,
    /// Fixed blocks of the given number of rows, the last block shorter.
    ChunkSize(usize),
}

/// A configuration the engine refuses, found before anything is spawned.
#[derive(Clone, Copy, PartialEq, Eq, Structural, Debug)]
pub enum ConfigError {
    /// The configuration asks for no worker threads at all.
    NoThreads,
    /// The configuration asks for chunks of zero rows.
    EmptyChunks,
}

/// The immutable configuration of one run.
#[derive(Clone, Copy, PartialEq, Eq, Structural, Debug)]
pub struct ComputeConfig {
    /// How many workers share the chunks; at least one.
    pub num_threads: usize,
    /// The wall-clock deadline in milliseconds; zero cancels at once.
    pub deadline_ms: u64,
    /// How rows are grouped into chunks.
    pub granularity: Granularity,
}

impl ComputeConfig {
    /// A well-formed configuration: at least one thread, and a chunk size of
    /// at least one row when an explicit size is given.
    pub open spec fn valid(self) -> bool {
        &&& self.num_threads >= 1
        &&& match self.granularity {
            Granularity::ThreadCount => true,
            Granularity::ChunkSize(s) => s >= 1,
        }
    }

    /// The chunk plan this configuration yields for a matrix of `rows` rows.
    pub open spec fn plan(self, rows: int) -> Seq<Chunk> {
        match self.granularity {
            Granularity::ThreadCount => equal_plan(rows, self.num_threads as int),
            Granularity::ChunkSize(s) => fixed_plan(rows, s as int),
        }
    }

    /// Check the configuration before any thread is spawned: rejects a zero
    /// thread count, then a zero chunk size, and accepts everything else.
    pub fn validate(&self) -> (r: Result<(), ConfigError>)
        ensures
            r is Ok <==> self.valid(),
            self.num_threads == 0 ==> r == Result::<(), ConfigError>::Err(ConfigError::NoThreads),
            self.num_threads >= 1 && !self.valid() ==> r == Result::<(), ConfigError>::Err(
                ConfigError::EmptyChunks,
            ),
    {
        if self.num_threads == 0 {
            return Err(ConfigError::NoThreads);
        }
        match self.granularity {
            Granularity::ThreadCount => Ok(()),
            Granularity::ChunkSize(s) => {
                if s == 0 {
                    Err(ConfigError::EmptyChunks)
                } else {
                    Ok(())
                }
            },
        }
    }

    /// A configuration that uses every detected processor with the equal
    /// split, whatever the machine reports.
    pub fn auto(deadline_ms: u64) -> (c: ComputeConfig)
        ensures
            c.valid(),
            c.deadline_ms == deadline_ms,
            c.granularity == Granularity::ThreadCount,
    {
        let n = detected_parallelism();
        let threads = if n == 0 {
            1
        } else {
            n
        };
        ComputeConfig { num_threads: threads, deadline_ms, granularity: Granularity::ThreadCount }
    }
}

/// Relies on `num_cpus::get`: the number of logical processors available to
/// this process. The value depends on the machine and on scheduler limits,
/// so nothing is promised of it.
#[verifier::external_body]
fn detected_parallelism() -> usize {
    num_cpus::get()
}

/// Partition `rows` rows into the chunk plan the configuration asks for: an
/// ordered list of disjoint, non-empty ranges covering the whole matrix.
pub fn partition(rows: usize, config: &ComputeConfig) -> (cs: Vec<Chunk>)
    requires
        config.valid(),
    ensures
        cs@ == config.plan(rows as int),
        tiles(cs@, rows as int),
{
    match config.granularity {
        Granularity::ThreadCount => partition_equal(rows, config.num_threads),
        Granularity::ChunkSize(s) => partition_fixed(rows, s),
    }
}

} // verus!
