//! Planning of row chunks: a matrix of `rows` rows is split into an ordered
//! list of disjoint, contiguous, non-empty row ranges that jointly cover
//! `[0, rows)`, either as evenly as possible over a target chunk count or as
//! fixed-size blocks.

use vstd::prelude::*;

verus! {

/// A contiguous, half-open range of matrix rows, assigned as one unit of work.
#[derive(Clone, Copy, PartialEq, Eq, Structural, Debug)]
pub struct Chunk {
    pub start_row: usize,
    pub end_row: usize,
}

impl Chunk {
    /// The number of rows the chunk spans.
    pub open spec fn spec_len(self) -> int {
        self.end_row - self.start_row
    }

    /// Whether a row index lies inside the chunk.
    pub open spec fn contains(self, row: int) -> bool {
        self.start_row <= row < self.end_row
    }
}

/// The chunk list tiles `[0, rows)`: every chunk is non-empty, consecutive
/// chunks meet exactly, the first starts at row 0 and the last ends at `rows`.
/// The empty list is the tiling of zero rows.
pub open spec fn tiles(cs: Seq<Chunk>, rows: int) -> bool {
    &&& forall|i: int| 0 <= i < cs.len() ==> (#[trigger] cs[i]).start_row < cs[i].end_row
    &&& forall|i: int| 0 <= i && i + 1 < cs.len() ==> (#[trigger] cs[i]).end_row == cs[i + 1].start_row
    &&& (cs.len() == 0 ==> rows == 0)
    &&& (cs.len() > 0 ==> cs[0].start_row == 0 && cs[cs.len() - 1].end_row == rows)
}

/// How many chunks the equal split produces: the target count, clamped to the
/// row count so that no chunk is empty.
pub open spec fn equal_chunk_count(rows: int, threads: int) -> int {
    if threads <= rows {
        threads
    } else {
        rows
    }
}

/// The boundary before chunk `i` of the equal split: the first `rows % count`
/// chunks carry one extra row on top of the base `rows / count`.
pub open spec fn equal_boundary(rows: int, count: int, i: int) -> int
    recommends
        1 <= count,
{
    i * (rows / count) + if i <= rows % count {
        i
    } else {
        rows % count
    }
}

/// Chunk `i` of the equal split of `rows` rows into `count` chunks.
pub open spec fn equal_chunk(rows: int, count: int, i: int) -> Chunk
    recommends
        1 <= count,
{
    Chunk {
        start_row: equal_boundary(rows, count, i) as usize,
        end_row: equal_boundary(rows, count, i + 1) as usize,
    }
}

/// The whole equal split plan: `min(threads, rows)` chunks whose sizes differ
/// by at most one row.
pub open spec fn equal_plan(rows: int, threads: int) -> Seq<Chunk>
    recommends
        0 <= rows,
        1 <= threads,
{
    let count = equal_chunk_count(rows, threads);
    Seq::new(count as nat, |i: int| equal_chunk(rows, count, i))
}

/// How many chunks the fixed-block split produces: `rows / size` rounded up.
pub open spec fn fixed_chunk_count(rows: int, size: int) -> int
    recommends
        0 <= rows,
        1 <= size,
{
    if rows == 0 {
        0
    } else {
        (rows - 1) / size + 1
    }
}

/// Chunk `i` of the fixed-block split: exactly `size` rows, except that the
/// last chunk stops at `rows`.
pub open spec fn fixed_chunk(rows: int, size: int, i: int) -> Chunk
    recommends
        1 <= size,
{
    Chunk {
        start_row: (i * size) as usize,
        end_row: (if (i + 1) * size <= rows {
            (i + 1) * size
        } else {
            rows
        }) as usize,
    }
}

/// The whole fixed-block plan.
pub open spec fn fixed_plan(rows: int, size: int) -> Seq<Chunk>
    recommends
        0 <= rows,
        1 <= size,
{
    Seq::new(fixed_chunk_count(rows, size) as nat, |i: int| fixed_chunk(rows, size, i))
}

/// The boundaries of the equal split stay within `[0, rows]` and advance by
/// at least one row per chunk.
proof fn lemma_equal_boundary(rows: int, count: int, i: int)
    requires
        1 <= count <= rows,
        0 <= i <= count,
    ensures
        0 <= equal_boundary(rows, count, i) <= rows,
        i < count ==> equal_boundary(rows, count, i) < equal_boundary(rows, count, i + 1),
{
    let base = rows / count;
    let rem = rows % count;
    vstd::arithmetic::div_mod::lemma_fundamental_div_mod(rows, count);
    vstd::arithmetic::div_mod::lemma_mod_bound(rows, count);
    assert(rows == count * base + rem);
    assert(base >= 1) by (nonlinear_arith)
        requires
            rows == count * base + rem,
            1 <= count <= rows,
            0 <= rem < count,
    ;
    assert(i * base >= 0) by (nonlinear_arith)
        requires
            i >= 0,
            base >= 0,
    ;
    assert(i * base + rem <= count * base + rem) by (nonlinear_arith)
        requires
            i <= count,
            base >= 0,
    ;
    if i < count {
        assert((i + 1) * base + rem <= count * base + rem) by (nonlinear_arith)
            requires
                i + 1 <= count,
                base >= 0,
        ;
        assert((i + 1) * base == i * base + base) by (nonlinear_arith);
    }
}

/// The equal split is a tiling of `[0, rows)`.
pub proof fn lemma_equal_plan_tiles(rows: int, threads: int)
    requires
        0 <= rows <= usize::MAX,
        1 <= threads,
    ensures
        tiles(equal_plan(rows, threads), rows),
        equal_plan(rows, threads).len() == equal_chunk_count(rows, threads),
{
    let count = equal_chunk_count(rows, threads);
    let cs = equal_plan(rows, threads);
    if rows == 0 {
        assert(cs.len() == 0);
    } else {
        assert(1 <= count <= rows);
        vstd::arithmetic::div_mod::lemma_mod_bound(rows, count);
        assert forall|i: int| 0 <= i < cs.len() implies (#[trigger] cs[i]).start_row
            < cs[i].end_row by {
            lemma_equal_boundary(rows, count, i);
            lemma_equal_boundary(rows, count, i + 1);
        }
        assert forall|i: int| 0 <= i && i + 1 < cs.len() implies (#[trigger] cs[i]).end_row == cs[i
            + 1].start_row by {
            lemma_equal_boundary(rows, count, i + 1);
        }
        lemma_equal_boundary(rows, count, 0);
        lemma_equal_boundary(rows, count, count - 1);
        lemma_equal_boundary(rows, count, count);
        assert(equal_boundary(rows, count, count) == rows) by {
            vstd::arithmetic::div_mod::lemma_fundamental_div_mod(rows, count);
        }
    }
}

/// Every chunk of the equal split has `rows / count` rows, plus one extra row
/// for the first `rows % count` positions: no two chunks differ by more than
/// one row.
pub proof fn lemma_equal_plan_balanced(rows: int, threads: int, i: int)
    requires
        0 <= rows <= usize::MAX,
        1 <= threads,
        0 <= i < equal_plan(rows, threads).len(),
    ensures
        equal_plan(rows, threads)[i].spec_len() == rows / equal_chunk_count(rows, threads) + if i
            < rows % equal_chunk_count(rows, threads) {
            1int
        } else {
            0int
        },
{
    let count = equal_chunk_count(rows, threads);
    assert(1 <= count <= rows);
    lemma_equal_boundary(rows, count, i);
    lemma_equal_boundary(rows, count, i + 1);
    vstd::arithmetic::div_mod::lemma_mod_bound(rows, count);
    let base = rows / count;
    assert((i + 1) * base == i * base + base) by (nonlinear_arith);
}

/// Law: the equal split is fair: no chunk spans more than one row beyond
/// any other chunk of the same plan.
pub proof fn lemma_equal_plan_fair(rows: int, threads: int, i: int, j: int)
    requires
        0 <= rows <= usize::MAX,
        1 <= threads,
        0 <= i < equal_plan(rows, threads).len(),
        0 <= j < equal_plan(rows, threads).len(),
    ensures
        equal_plan(rows, threads)[i].spec_len() <= equal_plan(rows, threads)[j].spec_len() + 1,
{
    lemma_equal_plan_balanced(rows, threads, i);
    lemma_equal_plan_balanced(rows, threads, j);
}

/// The boundaries of the fixed-block split stay within range.
proof fn lemma_fixed_boundary(rows: int, size: int, i: int)
    requires
        1 <= rows,
        1 <= size,
        0 <= i < fixed_chunk_count(rows, size),
    ensures
        0 <= i * size <= rows - 1,
        i + 1 < fixed_chunk_count(rows, size) ==> (i + 1) * size <= rows - 1,
        i + 1 == fixed_chunk_count(rows, size) ==> (i + 1) * size >= rows,
{
    let q = (rows - 1) / size;
    let r = (rows - 1) % size;
    vstd::arithmetic::div_mod::lemma_fundamental_div_mod(rows - 1, size);
    vstd::arithmetic::div_mod::lemma_mod_bound(rows - 1, size);
    assert(rows - 1 == size * q + r);
    assert(i * size >= 0) by (nonlinear_arith)
        requires
            i >= 0,
            size >= 0,
    ;
    assert(i * size <= q * size) by (nonlinear_arith)
        requires
            i <= q,
            size >= 0,
    ;
    assert(q * size == size * q) by (nonlinear_arith);
    if i + 1 < fixed_chunk_count(rows, size) {
        assert((i + 1) * size <= q * size) by (nonlinear_arith)
            requires
                i + 1 <= q,
                size >= 0,
        ;
    }
    if i + 1 == fixed_chunk_count(rows, size) {
        assert((i + 1) * size == q * size + size) by (nonlinear_arith)
            requires
                i == q,
        ;
    }
}

/// The fixed-block split is a tiling of `[0, rows)`.
pub proof fn lemma_fixed_plan_tiles(rows: int, size: int)
    requires
        0 <= rows <= usize::MAX,
        1 <= size,
    ensures
        tiles(fixed_plan(rows, size), rows),
        fixed_plan(rows, size).len() == fixed_chunk_count(rows, size),
{
    let cs = fixed_plan(rows, size);
    if rows == 0 {
        assert(cs.len() == 0);
    } else {
        let count = fixed_chunk_count(rows, size);
        assert(count >= 1) by {
            vstd::arithmetic::div_mod::lemma_div_pos_is_pos(rows - 1, size);
        }
        assert forall|i: int| 0 <= i < cs.len() implies (#[trigger] cs[i]).start_row
            < cs[i].end_row by {
            lemma_fixed_boundary(rows, size, i);
            assert((i + 1) * size == i * size + size) by (nonlinear_arith);
        }
        assert forall|i: int| 0 <= i && i + 1 < cs.len() implies (#[trigger] cs[i]).end_row == cs[i
            + 1].start_row by {
            lemma_fixed_boundary(rows, size, i);
            lemma_fixed_boundary(rows, size, i + 1);
        }
        lemma_fixed_boundary(rows, size, 0);
        lemma_fixed_boundary(rows, size, count - 1);
    }
}

/// Every chunk of the fixed-block split spans exactly `size` rows, except the
/// last, which stops at `rows`.
pub proof fn lemma_fixed_plan_sizes(rows: int, size: int, i: int)
    requires
        0 <= rows <= usize::MAX,
        1 <= size,
        0 <= i < fixed_plan(rows, size).len(),
    ensures
        fixed_plan(rows, size)[i].start_row == i * size,
        i + 1 < fixed_plan(rows, size).len() ==> fixed_plan(rows, size)[i].spec_len() == size,
        i + 1 == fixed_plan(rows, size).len() ==> fixed_plan(rows, size)[i].end_row == rows,
{
    lemma_fixed_boundary(rows, size, i);
    if i + 1 < fixed_plan(rows, size).len() {
        assert((i + 1) * size == i * size + size) by (nonlinear_arith);
    }
}

/// Law: in a tiling, an earlier chunk ends no later than a later chunk
/// starts, so chunks are ordered by start index.
pub proof fn lemma_tiles_ordered(cs: Seq<Chunk>, rows: int, i: int, j: int)
    requires
        tiles(cs, rows),
        0 <= i < j < cs.len(),
    ensures
        cs[i].end_row <= cs[j].start_row,
        cs[i].start_row < cs[j].start_row,
    decreases j - i,
{
    if i + 1 < j {
        lemma_tiles_ordered(cs, rows, i, j - 1);
    }
}

/// Law: distinct chunks of a tiling are pairwise disjoint: no row lies in
/// both.
pub proof fn lemma_tiles_disjoint(cs: Seq<Chunk>, rows: int, i: int, j: int)
    requires
        tiles(cs, rows),
        0 <= i < cs.len(),
        0 <= j < cs.len(),
        i != j,
    ensures
        forall|r: int| cs[i].contains(r) ==> !(#[trigger] cs[j].contains(r)),
{
    if i < j {
        lemma_tiles_ordered(cs, rows, i, j);
    } else {
        lemma_tiles_ordered(cs, rows, j, i);
    }
}

/// Law: the chunks of a tiling jointly cover `[0, rows)`: every row lies in
/// some chunk.
pub proof fn lemma_tiles_cover(cs: Seq<Chunk>, rows: int, r: int)
    requires
        tiles(cs, rows),
        0 <= r < rows,
    ensures
        exists|i: int| 0 <= i < cs.len() && (#[trigger] cs[i]).contains(r),
    decreases cs.len(),
{
    let last = cs[cs.len() - 1];
    if last.contains(r) {
        assert(cs[cs.len() - 1].contains(r));
    } else {
        let prefix = cs.drop_last();
        assert(tiles(prefix, last.start_row as int));
        lemma_tiles_cover(prefix, last.start_row as int, r);
        let i = choose|i: int| 0 <= i < prefix.len() && (#[trigger] prefix[i]).contains(r);
        assert(cs[i].contains(r));
    }
}

/// How many of the chunks have finished, given that all rows below `done`
/// are processed and no row at or above `done` is: the chunks whose end lies
/// at or below `done`.
pub open spec fn finished_chunks(cs: Seq<Chunk>, done: int) -> int
    decreases cs.len(),
{
    if cs.len() == 0 {
        0
    } else {
        finished_chunks(cs.drop_last(), done) + if cs.last().end_row <= done {
            1int
        } else {
            0int
        }
    }
}

/// The finished count never exceeds the chunk count.
pub proof fn lemma_finished_bounds(cs: Seq<Chunk>, done: int)
    ensures
        0 <= finished_chunks(cs, done) <= cs.len(),
    decreases cs.len(),
{
    if cs.len() > 0 {
        lemma_finished_bounds(cs.drop_last(), done);
    }
}

/// When every chunk ends at or below `done`, all chunks are finished.
pub proof fn lemma_finished_all(cs: Seq<Chunk>, done: int)
    requires
        forall|i: int| 0 <= i < cs.len() ==> (#[trigger] cs[i]).end_row <= done,
    ensures
        finished_chunks(cs, done) == cs.len(),
    decreases cs.len(),
{
    if cs.len() > 0 {
        lemma_finished_all(cs.drop_last(), done);
    }
}

/// When every chunk ends above `done`, no chunk is finished.
pub proof fn lemma_finished_none(cs: Seq<Chunk>, done: int)
    requires
        forall|i: int| 0 <= i < cs.len() ==> (#[trigger] cs[i]).end_row > done,
    ensures
        finished_chunks(cs, done) == 0,
    decreases cs.len(),
{
    if cs.len() > 0 {
        lemma_finished_none(cs.drop_last(), done);
    }
}

/// Split `rows` rows as evenly as possible into at most `threads` chunks: the
/// first `rows % count` chunks carry one extra row.
pub fn partition_equal(rows: usize, threads: usize) -> (cs: Vec<Chunk>)
    requires
        threads >= 1,
    ensures
        cs@ == equal_plan(rows as int, threads as int),
        tiles(cs@, rows as int),
{
    proof {
        lemma_equal_plan_tiles(rows as int, threads as int);
    }
    let count = if threads <= rows {
        threads
    } else {
        rows
    };
    let mut cs: Vec<Chunk> = Vec::new();
    if count == 0 {
        proof {
            assert(cs@ =~= equal_plan(rows as int, threads as int));
        }
        return cs;
    }
    let base = rows / count;
    let rem = rows % count;
    let mut i: usize = 0;
    let mut next: usize = 0;
    while i < count
        invariant
            1 <= count <= rows,
            count == equal_chunk_count(rows as int, threads as int),
            base == rows as int / count as int,
            rem == rows as int % count as int,
            0 <= i <= count,
            cs@.len() == i,
            forall|k: int|
                0 <= k < i ==> cs@[k] == equal_chunk(rows as int, count as int, k),
            next == equal_boundary(rows as int, count as int, i as int),
            next <= rows,
        decreases count - i,
    {
        proof {
            lemma_equal_boundary(rows as int, count as int, i as int);
            lemma_equal_boundary(rows as int, count as int, i as int + 1);
            assert((i as int + 1) * base as int == i as int * base as int + base as int)
                by (nonlinear_arith);
        }
        let extra: usize = if i < rem {
            1
        } else {
            0
        };
        let end = next + base + extra;
        cs.push(Chunk { start_row: next, end_row: end });
        next = end;
        i = i + 1;
    }
    proof {
        assert(cs@ =~= equal_plan(rows as int, threads as int));
    }
    cs
}

/// Split `rows` rows into blocks of exactly `size` rows, the last block
/// shorter when `size` does not divide `rows`.
pub fn partition_fixed(rows: usize, size: usize) -> (cs: Vec<Chunk>)
    requires
        size >= 1,
    ensures
        cs@ == fixed_plan(rows as int, size as int),
        tiles(cs@, rows as int),
{
    proof {
        lemma_fixed_plan_tiles(rows as int, size as int);
    }
    let mut cs: Vec<Chunk> = Vec::new();
    if rows == 0 {
        proof {
            assert(cs@ =~= fixed_plan(rows as int, size as int));
        }
        return cs;
    }
    let count = (rows - 1) / size + 1;
    let mut i: usize = 0;
    let mut next: usize = 0;
    while i < count
        invariant
            1 <= rows,
            1 <= size,
            count == fixed_chunk_count(rows as int, size as int),
            count <= rows,
            0 <= i <= count,
            cs@.len() == i,
            forall|k: int|
                0 <= k < i ==> cs@[k] == fixed_chunk(rows as int, size as int, k),
            i < count ==> next == i as int * size as int,
            i < count ==> next <= rows - 1,
        decreases count - i,
    {
        proof {
            lemma_fixed_boundary(rows as int, size as int, i as int);
            assert((i as int + 1) * size as int == i as int * size as int + size as int)
                by (nonlinear_arith);
            if i as int + 1 < count {
                lemma_fixed_boundary(rows as int, size as int, i as int + 1);
            }
        }
        let end = if rows - next <= size {
            rows
        } else {
            next + size
        };
        cs.push(Chunk { start_row: next, end_row: end });
        next = if i + 1 < count {
            next + size
        } else {
            rows
        };
        i = i + 1;
    }
    proof {
        assert(cs@ =~= fixed_plan(rows as int, size as int));
    }
    cs
}

/// Count the chunks whose last row lies strictly below the processed
/// frontier `done`: the chunks that fully finished.
pub fn count_finished(cs: &Vec<Chunk>, done: usize) -> (n: usize)
    ensures
        n == finished_chunks(cs@, done as int),
        n <= cs@.len(),
{
    proof {
        lemma_finished_bounds(cs@, done as int);
    }
    let mut n: usize = 0;
    let mut i: usize = 0;
    while i < cs.len()
        invariant
            0 <= i <= cs@.len(),
            n == finished_chunks(cs@.take(i as int), done as int),
            n <= i,
        decreases cs@.len() - i,
    {
        proof {
            assert(cs@.take(i as int + 1).drop_last() =~= cs@.take(i as int));
            assert(cs@.take(i as int + 1).last() == cs@[i as int]);
        }
        if cs[i].end_row <= done {
            n = n + 1;
        }
        i = i + 1;
    }
    proof {
        assert(cs@.take(cs@.len() as int) =~= cs@);
    }
    n
}

} // verus!
