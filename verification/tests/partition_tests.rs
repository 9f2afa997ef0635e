use parallel_matrix::chunk::{Chunk, count_finished, partition_equal, partition_fixed};
use parallel_matrix::config::{ComputeConfig, Granularity, partition};

fn assert_tiling(chunks: &[Chunk], rows: usize) {
    if rows == 0 {
        assert!(chunks.is_empty());
        return;
    }
    assert!(!chunks.is_empty());
    assert_eq!(chunks[0].start_row, 0);
    assert_eq!(chunks[chunks.len() - 1].end_row, rows);
    for w in chunks.windows(2) {
        // ordered, disjoint and gap-free: each chunk starts where the
        // previous one ends
        assert_eq!(w[0].end_row, w[1].start_row);
        assert!(w[0].start_row < w[1].start_row);
    }
    for c in chunks {
        assert!(c.start_row < c.end_row);
    }
}

#[test]
fn equal_split_balances_rows() {
    let cs = partition_equal(10, 4);
    assert_eq!(cs.len(), 4);
    assert_eq!((cs[0].start_row, cs[0].end_row), (0, 3));
    assert_eq!((cs[1].start_row, cs[1].end_row), (3, 6));
    assert_eq!((cs[2].start_row, cs[2].end_row), (6, 8));
    assert_eq!((cs[3].start_row, cs[3].end_row), (8, 10));
    assert_tiling(&cs, 10);
}

#[test]
fn equal_split_exact_division() {
    let cs = partition_equal(12, 4);
    assert_eq!(cs.len(), 4);
    for (i, c) in cs.iter().enumerate() {
        assert_eq!(c.start_row, i * 3);
        assert_eq!(c.end_row, (i + 1) * 3);
    }
    assert_tiling(&cs, 12);
}

#[test]
fn equal_split_clamps_to_rows() {
    // fewer rows than threads: one single-row chunk per row, none empty
    let cs = partition_equal(2, 4);
    assert_eq!(cs.len(), 2);
    assert_eq!((cs[0].start_row, cs[0].end_row), (0, 1));
    assert_eq!((cs[1].start_row, cs[1].end_row), (1, 2));
    assert_tiling(&cs, 2);
}

#[test]
fn equal_split_empty_matrix() {
    let cs = partition_equal(0, 4);
    assert!(cs.is_empty());
}

#[test]
fn fixed_split_short_last_chunk() {
    let cs = partition_fixed(10, 3);
    assert_eq!(cs.len(), 4);
    assert_eq!((cs[0].start_row, cs[0].end_row), (0, 3));
    assert_eq!((cs[1].start_row, cs[1].end_row), (3, 6));
    assert_eq!((cs[2].start_row, cs[2].end_row), (6, 9));
    assert_eq!((cs[3].start_row, cs[3].end_row), (9, 10));
    assert_tiling(&cs, 10);
}

#[test]
fn fixed_split_exact_division() {
    let cs = partition_fixed(9, 3);
    assert_eq!(cs.len(), 3);
    assert_tiling(&cs, 9);
    for c in &cs {
        assert_eq!(c.end_row - c.start_row, 3);
    }
}

#[test]
fn fixed_split_empty_matrix() {
    let cs = partition_fixed(0, 5);
    assert!(cs.is_empty());
}

#[test]
fn fixed_split_oversized_block() {
    let cs = partition_fixed(4, 100);
    assert_eq!(cs.len(), 1);
    assert_eq!((cs[0].start_row, cs[0].end_row), (0, 4));
}

#[test]
fn partition_follows_granularity() {
    let by_threads = ComputeConfig {
        num_threads: 3,
        deadline_ms: 1000,
        granularity: Granularity::ThreadCount,
    };
    let cs = partition(9, &by_threads);
    assert_eq!(cs.len(), 3);
    assert_tiling(&cs, 9);

    let by_size = ComputeConfig {
        num_threads: 3,
        deadline_ms: 1000,
        granularity: Granularity::ChunkSize(4),
    };
    let cs = partition(9, &by_size);
    assert_eq!(cs.len(), 3);
    assert_eq!((cs[2].start_row, cs[2].end_row), (8, 9));
    assert_tiling(&cs, 9);
}

#[test]
fn finished_chunk_accounting() {
    let cs = partition_fixed(10, 3);
    // frontier in the middle of the second chunk: only the first finished
    assert_eq!(count_finished(&cs, 0), 0);
    assert_eq!(count_finished(&cs, 2), 0);
    assert_eq!(count_finished(&cs, 3), 1);
    assert_eq!(count_finished(&cs, 5), 1);
    assert_eq!(count_finished(&cs, 9), 3);
    assert_eq!(count_finished(&cs, 10), 4);
}
