//! The fixed runs of rows that the workers of a static kernel receive.

use vstd::prelude::*;
use std::sync::Mutex;
use rayon::ThreadPool;
use crate::element::Element;
use crate::kernels::common::{
    fill, ikj_rows, lemma_part_may_accumulate, lemma_parts_accumulated, lemma_rows_are_product,
    lemma_square_rows, lemma_zero_rows_may_accumulate, rows_accumulated, rows_may_accumulate,
    tiled_rows,
};
use crate::kernels::pool::pool_threads;
use crate::kernels::{gemm_dimensions, is_product, product_allowed};
use crate::matrix::Matrix;
use super::{row_start, static_row_counts, static_rows_cover_the_matrix};

verus! {

/// No worker starts before row zero or before the workers before it.
pub proof fn lemma_row_start_ascends(counts: Seq<usize>, a: int, b: int)
    requires
        0 <= a <= b,
    ensures
        0 <= row_start(counts, a) <= row_start(counts, b),
    decreases b,
{
    if a < b {
        lemma_row_start_ascends(counts, a, b - 1);
    } else if 0 < a {
        lemma_row_start_ascends(counts, a - 1, a - 1);
    }
}

/// The place of the first element of a worker's run.
pub open spec fn run_start(counts: Seq<usize>, n: int, worker: int) -> int {
    row_start(counts, worker) * n
}

proof fn lemma_run_start(counts: Seq<usize>, n: int, worker: int)
    requires
        0 <= worker < counts.len(),
        n > 0,
    ensures
        row_start(counts, worker + 1) <= run_start(counts, n, worker + 1),
        run_start(counts, n, worker + 1) == run_start(counts, n, worker) + counts[worker] * n,
        0 <= run_start(counts, n, worker) <= run_start(counts, n, worker + 1) <= run_start(
            counts,
            n,
            counts.len() as int,
        ),
        0 <= counts[worker] * n,
{
    lemma_row_start_ascends(counts, worker, worker + 1);
    lemma_row_start_ascends(counts, worker + 1, counts.len() as int);
    let a = row_start(counts, worker);
    let b = row_start(counts, worker + 1);
    let c = row_start(counts, counts.len() as int);
    let rows = counts[worker] as int;
    assert(b == a + rows);
    assert((a + rows) * n == a * n + rows * n) by (nonlinear_arith);
    assert(0 <= a * n <= b * n <= c * n) by (nonlinear_arith)
        requires
            0 <= a <= b <= c,
            0 <= n,
    ;
    assert(b <= b * n) by (nonlinear_arith)
        requires
            0 <= b,
            0 < n,
    ;
    assert(0 <= rows * n) by (nonlinear_arith)
        requires
            0 <= rows,
            0 <= n,
    ;
}

/// Splits whole rows of `n` elements into one disjoint run per worker, each
/// with the number of its first row.
pub(crate) fn split_rows<'a, T>(output: &'a mut [T], counts: &Vec<usize>, n: usize) -> (chunks: Vec<
    (usize, &'a mut [T]),
>)
    requires
        n > 0,
        run_start(counts@, n as int, counts@.len() as int) == old(output)@.len(),
    ensures
        chunks@.len() == counts@.len(),
        forall|p: int|
            0 <= p < counts@.len() ==> (#[trigger] chunks@[p]).0 == row_start(counts@, p)
                && chunks@[p].1@ == old(output)@.subrange(
                run_start(counts@, n as int, p),
                run_start(counts@, n as int, p + 1),
            ),
        (forall|p: int|
            0 <= p < counts@.len() ==> final((#[trigger] chunks@[p]).1)@.len()
                == chunks@[p].1@.len()) ==> {
            &&& final(output)@.len() == old(output)@.len()
            &&& forall|p: int|
                0 <= p < counts@.len() ==> final(output)@.subrange(
                    run_start(counts@, n as int, p),
                    run_start(counts@, n as int, p + 1),
                ) == final((#[trigger] chunks@[p]).1)@
        },
{
    let total: usize = output.len();
    let ghost size = n as int;
    let mut chunks: Vec<(usize, &'a mut [T])> = Vec::new();
    let mut remaining = output;
    let mut first_row: usize = 0;
    let mut worker: usize = 0;
    while worker < counts.len()
        invariant
            n > 0,
            size == n,
            worker <= counts@.len(),
            chunks@.len() == worker,
            total == old(output)@.len(),
            run_start(counts@, size, counts@.len() as int) == total,
            first_row == row_start(counts@, worker as int),
            remaining@ == old(output)@.subrange(
                run_start(counts@, size, worker as int),
                total as int,
            ),
            0 <= run_start(counts@, size, worker as int) <= total,
            forall|p: int|
                0 <= p < worker ==> (#[trigger] chunks@[p]).0 == row_start(counts@, p)
                    && chunks@[p].1@ == old(output)@.subrange(
                    run_start(counts@, size, p),
                    run_start(counts@, size, p + 1),
                ),
            ((forall|p: int|
                0 <= p < worker ==> final((#[trigger] chunks@[p]).1)@.len()
                    == chunks@[p].1@.len()) && final(remaining)@.len() == remaining@.len()) ==> {
                &&& final(output)@.len() == total
                &&& forall|p: int|
                    0 <= p < worker ==> final(output)@.subrange(
                        run_start(counts@, size, p),
                        run_start(counts@, size, p + 1),
                    ) == final((#[trigger] chunks@[p]).1)@
                &&& final(output)@.subrange(run_start(counts@, size, worker as int), total as int)
                    == final(remaining)@
            },
        decreases counts@.len() - worker,
    {
        proof {
            lemma_run_start(counts@, size, worker as int);
        }
        let rows = counts[worker];
        let ghost before = chunks@;
        let ghost lo = run_start(counts@, size, worker as int);
        let ghost hi = run_start(counts@, size, worker + 1);
        let (chunk, rest) = remaining.split_at_mut(rows * n);
        assert(chunk@ == old(output)@.subrange(lo, hi));
        chunks.push((first_row, chunk));
        assert(forall|p: int| 0 <= p < worker ==> #[trigger] chunks@[p] == before[p]);
        assert(forall|p: int| 0 <= p < worker ==> #[trigger] before[p] == chunks@[p]);
        // What the pieces end up as is what the output ends up as.
        assert(((forall|p: int|
            0 <= p < worker + 1 ==> final((#[trigger] chunks@[p]).1)@.len()
                == chunks@[p].1@.len()) && final(rest)@.len() == rest@.len()) ==> {
            let whole = final(output)@.subrange(lo, total as int);
            &&& forall|p: int|
                0 <= p < worker ==> final((#[trigger] before[p]).1)@.len() == before[p].1@.len()
            &&& whole == final(chunks@[worker as int].1)@ + final(rest)@
            &&& final(output)@.subrange(lo, hi) == whole.subrange(0, hi - lo)
            &&& final(output)@.subrange(hi, total as int) == whole.subrange(hi - lo, total - lo)
            &&& whole.subrange(0, hi - lo) == final(chunks@[worker as int].1)@
            &&& whole.subrange(hi - lo, total - lo) == final(rest)@
        });
        first_row = first_row + rows;
        remaining = rest;
        worker += 1;
    }
    chunks
}

/// Multiplies a worker's rows, in tiles of the given edge length if there is
/// one and in the `i-k-j` order if there is none.
fn multiply_rows<T: Element>(
    lhs: &[T],
    rhs: &[T],
    output_rows: &mut [T],
    first_row: usize,
    n: usize,
    tile: Option<usize>,
)
    requires
        tile matches Some(edge) ==> edge > 0,
        rows_may_accumulate(lhs@, rhs@, old(output_rows)@, first_row as int, n as int),
    ensures
        rows_accumulated(
            lhs@,
            rhs@,
            old(output_rows)@,
            final(output_rows)@,
            first_row as int,
            n as int,
        ),
{
    match tile {
        Some(block_size) => tiled_rows(lhs, rhs, output_rows, first_row, n, block_size),
        None => ikj_rows(lhs, rhs, output_rows, first_row, n),
    }
}

/// Calls `ThreadPool::broadcast`.
///
/// Rayon calls the closure exactly once on every thread of the pool, with the
/// thread's number, which `BroadcastContext::index` returns and which runs from
/// zero up to the number of threads; the call returns when all of them have
/// returned. With as many chunks as threads, every chunk is therefore taken by
/// one thread and ends up as `multiply_rows` leaves it. The chunks stay the
/// same pieces of the output. The mutexes only hand a chunk to its thread.
#[verifier::external_body]
fn broadcast_chunks<T: Element>(
    pool: &ThreadPool,
    chunks: &mut Vec<(usize, &mut [T])>,
    lhs: &[T],
    rhs: &[T],
    n: usize,
    tile: Option<usize>,
)
    requires
        old(chunks)@.len() == pool_threads(*pool),
        tile matches Some(edge) ==> edge > 0,
        forall|p: int|
            0 <= p < old(chunks)@.len() ==> rows_may_accumulate(
                lhs@,
                rhs@,
                (#[trigger] old(chunks)@[p]).1@,
                old(chunks)@[p].0 as int,
                n as int,
            ),
    ensures
        final(chunks)@.len() == old(chunks)@.len(),
        forall|p: int|
            0 <= p < old(chunks)@.len() ==> (#[trigger] final(chunks)@[p]).0 == old(chunks)@[p].0
                && final(final(chunks)@[p].1)@ == final(old(chunks)@[p].1)@ && rows_accumulated(
                lhs@,
                rhs@,
                old(chunks)@[p].1@,
                final(chunks)@[p].1@,
                old(chunks)@[p].0 as int,
                n as int,
            ),
{
    let cells: Vec<Mutex<&mut (usize, &mut [T])>> = chunks.iter_mut().map(Mutex::new).collect();
    pool.broadcast(
        |context|
            {
                let mut cell = cells[context.index()].lock().expect(
                    "each chunk is locked by exactly one worker",
                );
                let (first_row, rows) = &mut **cell;
                multiply_rows(lhs, rhs, rows, *first_row, n, tile);
            },
    );
}

/// Multiplies on the pool, one fixed run of rows per worker.
pub(crate) fn static_product<T: Element>(
    pool: &ThreadPool,
    lhs: &Matrix<T>,
    rhs: &Matrix<T>,
    output: &mut Matrix<T>,
    tile: Option<usize>,
)
    requires
        gemm_dimensions(lhs@, rhs@, old(output)@),
        product_allowed(lhs@, rhs@),
        0 < pool_threads(*pool) <= lhs@.rows,
        tile matches Some(edge) ==> edge > 0,
    ensures
        is_product(lhs@, rhs@, final(output)@),
{
    let n = lhs.cols();
    let threads = pool.current_num_threads();
    let zero = T::default();
    fill(output.as_mut_slice(), zero);
    let ghost cleared = output@;
    let counts = static_row_counts(n, threads);
    proof {
        lemma_zero_rows_may_accumulate(lhs@, rhs@, cleared, zero);
        lemma_square_rows(n as int);
        static_rows_cover_the_matrix(counts@, n as nat, threads as nat);
    }
    let mut chunks = split_rows(output.as_mut_slice(), &counts, n);
    proof {
        assert forall|p: int| 0 <= p < chunks@.len() implies rows_may_accumulate(
            lhs@.data,
            rhs@.data,
            (#[trigger] chunks@[p]).1@,
            chunks@[p].0 as int,
            n as int,
        ) by {
            lemma_row_start_ascends(counts@, p, p + 1);
            lemma_row_start_ascends(counts@, p + 1, threads as int);
            lemma_part_may_accumulate(
                lhs@.data,
                rhs@.data,
                cleared.data,
                n as int,
                row_start(counts@, p),
                row_start(counts@, p + 1),
            );
        }
    }
    let ghost handed = chunks@;
    broadcast_chunks(pool, &mut chunks, lhs.as_slice(), rhs.as_slice(), n, tile);
    // The chunks are handed back for good, so each holds what the output holds.
    assert(has_resolved(chunks));
    assert(forall|p: int|
        0 <= p < threads ==> final((#[trigger] handed[p]).1)@ == chunks@[p].1@);
    proof {
        let starts = |p: int| row_start(counts@, p);
        assert forall|p: int| 0 <= p < threads implies 0 <= #[trigger] starts(p) <= starts(p + 1)
            <= n && rows_accumulated(
            lhs@.data,
            rhs@.data,
            cleared.data.subrange(starts(p) * n, starts(p + 1) * n),
            output@.data.subrange(starts(p) * n, starts(p + 1) * n),
            starts(p),
            n as int,
        ) by {
            assert(handed[p].1@ == cleared.data.subrange(starts(p) * n, starts(p + 1) * n));
            assert(chunks@[p].0 == handed[p].0);
            lemma_row_start_ascends(counts@, p, p + 1);
            lemma_row_start_ascends(counts@, p + 1, threads as int);
        }
        lemma_parts_accumulated(
            lhs@.data,
            rhs@.data,
            cleared.data,
            output@.data,
            n as int,
            threads as int,
            starts,
        );
        lemma_rows_are_product(lhs@, rhs@, cleared, output@, zero);
    }
}

} // verus!
