use parallel_matrix::config::{ComputeConfig, ConfigError, Granularity};
use parallel_matrix::engine::ParallelMatrixProcessor;
use parallel_matrix::grid::generate_test_matrix;
use parallel_matrix::kernel::{IdentityKernel, IterativeKernel};
use parallel_matrix::token::CancellationToken;

fn numbered_matrix(rows: usize, cols: usize) -> Vec<Vec<i64>> {
    let mut m = Vec::new();
    for i in 0..rows {
        let mut row = Vec::new();
        for j in 0..cols {
            row.push((i * cols + j) as i64);
        }
        m.push(row);
    }
    m
}

#[test]
fn identity_small_matrix_completes() {
    // 10x10 input, identity kernel, 4 threads, 5 s deadline: the run
    // completes, all 4 chunks count, and the output equals the input.
    let input = numbered_matrix(10, 10);
    let config = ComputeConfig {
        num_threads: 4,
        deadline_ms: 5000,
        granularity: Granularity::ThreadCount,
    };
    let processor = ParallelMatrixProcessor::new(config);
    let result = processor.process_matrix(&IdentityKernel, &input).unwrap();
    assert!(result.completed);
    assert_eq!(result.chunks_processed, 4);
    assert_eq!(result.output, input);
}

#[test]
fn zero_deadline_completes_nothing() {
    // deadline 0: cancelled before the first row, every cell keeps its
    // zero fill and no chunk counts as processed
    let input = numbered_matrix(8, 8);
    let config = ComputeConfig {
        num_threads: 2,
        deadline_ms: 0,
        granularity: Granularity::ThreadCount,
    };
    let processor = ParallelMatrixProcessor::new(config);
    let result = processor.process_matrix(&IdentityKernel, &input).unwrap();
    assert!(!result.completed);
    assert_eq!(result.chunks_processed, 0);
    assert_eq!(result.output.len(), 8);
    for row in &result.output {
        assert_eq!(row.len(), 8);
        for &v in row {
            assert_eq!(v, 0);
        }
    }
}

#[test]
fn empty_matrix_completes_immediately() {
    let input: Vec<Vec<i64>> = Vec::new();
    let config = ComputeConfig {
        num_threads: 4,
        deadline_ms: 1000,
        granularity: Granularity::ThreadCount,
    };
    let processor = ParallelMatrixProcessor::new(config);
    let result = processor.process_matrix(&IdentityKernel, &input).unwrap();
    assert!(result.completed);
    assert_eq!(result.chunks_processed, 0);
    assert!(result.output.is_empty());
}

#[test]
fn repeated_runs_bit_identical() {
    // same config, same input, deadline ample: two runs agree cell for cell
    let input = generate_test_matrix(32, 17);
    let config = ComputeConfig {
        num_threads: 3,
        deadline_ms: 10_000,
        granularity: Granularity::ChunkSize(5),
    };
    let processor = ParallelMatrixProcessor::new(config);
    let kernel = IterativeKernel { rounds: 3 };
    let first = processor.process_matrix(&kernel, &input).unwrap();
    let second = processor.process_matrix(&kernel, &input).unwrap();
    assert!(first.completed);
    assert!(second.completed);
    assert_eq!(first.output, second.output);
    assert_eq!(first.chunks_processed, second.chunks_processed);
}

#[test]
fn tight_deadline_stops_early() {
    // a kernel expensive enough that the sequential runtime far exceeds
    // half a second: the run stops early, partially done, at or past the
    // deadline
    let input = generate_test_matrix(2000, 200);
    let config = ComputeConfig {
        num_threads: 4,
        deadline_ms: 500,
        granularity: Granularity::ChunkSize(100),
    };
    let processor = ParallelMatrixProcessor::new(config);
    let kernel = IterativeKernel { rounds: 20_000 };
    let result = processor.process_matrix(&kernel, &input).unwrap();
    assert!(!result.completed);
    assert!(result.chunks_processed < 20);
    // at or past the deadline, but only by a bounded overrun: the engine
    // stops at the first poll after the deadline, before the next row
    assert!(result.elapsed_ms >= 500);
    assert!(result.elapsed_ms <= 10_000);
}

#[test]
fn completed_run_matches_sequential_reference() {
    // ample deadline: the engine's output equals a plain single-threaded
    // run of the same kernel, cell for cell
    let input = numbered_matrix(5, 4);
    let config = ComputeConfig {
        num_threads: 3,
        deadline_ms: 10_000,
        granularity: Granularity::ThreadCount,
    };
    let processor = ParallelMatrixProcessor::new(config);
    let kernel = IterativeKernel { rounds: 1 };
    let result = processor.process_matrix(&kernel, &input).unwrap();
    assert!(result.completed);
    let reference: Vec<Vec<i64>> = input
        .iter()
        .map(|row| {
            row.iter()
                .map(|v| v.wrapping_mul(31).wrapping_add(7))
                .collect()
        })
        .collect();
    assert_eq!(result.output, reference);
}

#[test]
fn iterative_kernel_exact_value() {
    // two mixing rounds on 1: (1 * 31 + 7) * 31 + 7 == 1185
    let input = vec![vec![1i64]];
    let config = ComputeConfig {
        num_threads: 1,
        deadline_ms: 5000,
        granularity: Granularity::ThreadCount,
    };
    let processor = ParallelMatrixProcessor::new(config);
    let kernel = IterativeKernel { rounds: 2 };
    let result = processor.process_matrix(&kernel, &input).unwrap();
    assert!(result.completed);
    assert_eq!(result.output, vec![vec![1185i64]]);
}

#[test]
fn matrix_multiply_exact_values() {
    let a = vec![vec![1i64, 2], vec![3, 4]];
    let b = vec![vec![5i64, 6], vec![7, 8]];
    let config = ComputeConfig {
        num_threads: 2,
        deadline_ms: 5000,
        granularity: Granularity::ThreadCount,
    };
    let processor = ParallelMatrixProcessor::new(config);
    let result = processor.matrix_multiply(&a, b).unwrap();
    assert!(result.completed);
    assert_eq!(result.output, vec![vec![19i64, 22], vec![43, 50]]);
}

#[test]
fn rejects_zero_threads() {
    let input = numbered_matrix(4, 4);
    let config = ComputeConfig {
        num_threads: 0,
        deadline_ms: 1000,
        granularity: Granularity::ThreadCount,
    };
    let processor = ParallelMatrixProcessor::new(config);
    let err = match processor.process_matrix(&IdentityKernel, &input) {
        Err(e) => e,
        Ok(_) => panic!("a zero thread count must be rejected"),
    };
    assert_eq!(err, ConfigError::NoThreads);
}

#[test]
fn rejects_zero_chunk_size() {
    let input = numbered_matrix(4, 4);
    let config = ComputeConfig {
        num_threads: 2,
        deadline_ms: 1000,
        granularity: Granularity::ChunkSize(0),
    };
    let processor = ParallelMatrixProcessor::new(config);
    let err = match processor.process_matrix(&IdentityKernel, &input) {
        Err(e) => e,
        Ok(_) => panic!("a zero chunk size must be rejected"),
    };
    assert_eq!(err, ConfigError::EmptyChunks);
}

#[test]
fn cancelled_token_stops_before_first_row() {
    // a token set before the run starts mimics the watchdog having fired:
    // nothing is processed even with an ample deadline
    let token = CancellationToken::new();
    token.cancel();
    // a second cancel is idempotent
    token.cancel();
    assert!(token.is_cancelled());
    let fresh = CancellationToken::new();
    assert!(!fresh.is_cancelled());
    let shared = fresh.clone();
    shared.cancel();
    assert!(fresh.is_cancelled());
}

#[test]
fn test_matrix_generator_formula() {
    let m = generate_test_matrix(150, 120);
    assert_eq!(m.len(), 150);
    assert_eq!(m[0].len(), 120);
    assert_eq!(m[0][0], 0);
    assert_eq!(m[5][7], 12);
    assert_eq!(m[120][110], (20 + 10) % 100);
    assert_eq!(m[99][99], 98);
}

#[test]
fn auto_config_has_workers() {
    let config = ComputeConfig::auto(250);
    assert!(config.num_threads >= 1);
    assert_eq!(config.deadline_ms, 250);
    assert_eq!(config.granularity, Granularity::ThreadCount);
}
