//! Kernels that give every worker a fixed run of rows.

use vstd::prelude::*;

pub mod chunks;
pub mod ikj;
pub mod tiled;

pub use ikj::StaticIkjGemm;
pub use tiled::StaticTiledGemm;

verus! {

/// The number of rows that `worker` gets.
pub open spec fn row_count(n: nat, threads: nat, worker: int) -> nat {
    if worker < n % threads {
        n / threads + 1
    } else {
        n / threads
    }
}

/// The first row that `worker` gets: those before it get the rows before it.
pub open spec fn row_start(counts: Seq<usize>, worker: int) -> int
    decreases worker,
{
    if worker <= 0 {
        0
    } else {
        row_start(counts, worker - 1) + counts[worker - 1]
    }
}

/// Row counts per worker, as OpenMP's static schedule assigns them: every
/// worker gets `n / threads` rows and the first `n % threads` get one more.
pub fn static_row_counts(n: usize, threads: usize) -> (counts: Vec<usize>)
    ensures
        counts@.len() == threads,
        forall|worker: int|
            0 <= worker < threads ==> #[trigger] counts@[worker] == row_count(
                n as nat,
                threads as nat,
                worker,
            ),
{
    let mut counts: Vec<usize> = Vec::new();
    let mut worker: usize = 0;
    while worker < threads
        invariant
            worker <= threads,
            counts@.len() == worker,
            forall|w: int|
                0 <= w < worker ==> #[trigger] counts@[w] == row_count(
                    n as nat,
                    threads as nat,
                    w,
                ),
        decreases threads - worker,
    {
        let share: usize = n / threads;
        let extra: usize = n % threads;
        proof {
            if worker < extra {
                assert(threads > 1) by (nonlinear_arith)
                    requires
                        worker < extra,
                        extra < threads,
                ;
                assert(share * 2 <= n) by (nonlinear_arith)
                    requires
                        threads > 1,
                        share == n / threads,
                ;
            }
        }
        if worker < extra {
            counts.push(share + 1);
        } else {
            counts.push(share);
        }
        worker += 1;
    }
    counts
}

/// Before each worker lie `n / threads` rows for every worker before it, and
/// one more for each of them that gets one more.
proof fn lemma_row_start(counts: Seq<usize>, n: nat, threads: nat, worker: int)
    requires
        threads > 0,
        counts.len() == threads,
        forall|w: int| 0 <= w < threads ==> #[trigger] counts[w] == row_count(n, threads, w),
        0 <= worker <= threads,
    ensures
        row_start(counts, worker) == worker * (n / threads) + if worker < n % threads {
            worker
        } else {
            (n % threads) as int
        },
    decreases worker,
{
    let share = (n / threads) as int;
    if worker > 0 {
        lemma_row_start(counts, n, threads, worker - 1);
        assert(worker * share == (worker - 1) * share + share) by (nonlinear_arith);
        assert(counts[worker - 1] == row_count(n, threads, worker - 1));
    } else {
        assert(worker * share == 0) by (nonlinear_arith)
            requires
                worker == 0,
        ;
    }
}

/// The workers get all rows between them, and none twice: their runs follow
/// one another from row zero to row `n`.
pub proof fn static_rows_cover_the_matrix(counts: Seq<usize>, n: nat, threads: nat)
    requires
        threads > 0,
        counts.len() == threads,
        forall|w: int| 0 <= w < threads ==> #[trigger] counts[w] == row_count(n, threads, w),
    ensures
        row_start(counts, 0) == 0,
        row_start(counts, threads as int) == n,
        forall|w: int|
            0 <= w < threads ==> row_start(counts, w + 1) == #[trigger] row_start(counts, w)
                + counts[w],
{
    lemma_row_start(counts, n, threads, threads as int);
    vstd::arithmetic::div_mod::lemma_fundamental_div_mod(n as int, threads as int);
    vstd::arithmetic::div_mod::lemma_mod_bound(n as int, threads as int);
}

proof fn lemma_row_start_is_sum(
    counts: Seq<usize>,
    worker: int,
    plus: spec_fn(int, usize) -> int,
)
    requires
        0 <= worker <= counts.len(),
        forall|x: int, y: usize| #[trigger] plus(x, y) == x + y,
    ensures
        row_start(counts, worker) == counts.take(worker).fold_left(0, plus),
    decreases worker,
{
    if worker > 0 {
        lemma_row_start_is_sum(counts, worker - 1, plus);
        assert(counts.take(worker).drop_last() == counts.take(worker - 1));
        assert(counts.take(worker).last() == counts[worker - 1]);
    }
}

/// The counts that [`static_row_counts`] returns are one per worker and come to
/// all rows. They differ by one at most, the larger ones come first, and none
/// is zero where there are rows enough.
pub proof fn rows_are_dealt_out(n: usize, threads: usize, counts: Vec<usize>)
    requires
        call_ensures(static_row_counts, (n, threads), counts),
        threads > 0,
    ensures
        counts@.len() == threads,
        counts@.fold_left(0, |sum: int, rows: usize| sum + rows) == n,
        forall|a: int, b: int|
            0 <= a <= b < threads ==> #[trigger] counts@[b] <= #[trigger] counts@[a]
                <= counts@[b] + 1,
        threads <= n ==> forall|w: int| 0 <= w < threads ==> #[trigger] counts@[w] >= 1,
{
    static_rows_cover_the_matrix(counts@, n as nat, threads as nat);
    lemma_row_start_is_sum(counts@, threads as int, |sum: int, rows: usize| sum + rows);
    assert(counts@.take(threads as int) == counts@);
    assert forall|a: int, b: int| 0 <= a <= b < threads implies #[trigger] counts@[b]
        <= #[trigger] counts@[a] <= counts@[b] + 1 by {
        static_rows_are_balanced(n as nat, threads as nat, a, b);
    }
    if threads <= n {
        assert forall|w: int| 0 <= w < threads implies #[trigger] counts@[w] >= 1 by {
            static_rows_use_every_worker(n as nat, threads as nat, w);
        }
    }
}

/// No worker gets two rows more than another, and an earlier worker never gets
/// fewer than a later one.
pub proof fn static_rows_are_balanced(n: nat, threads: nat, a: int, b: int)
    requires
        threads > 0,
        0 <= a <= b < threads,
    ensures
        row_count(n, threads, b) <= row_count(n, threads, a) <= row_count(n, threads, b) + 1,
{
}

/// With no more workers than rows, every worker gets a row.
pub proof fn static_rows_use_every_worker(n: nat, threads: nat, worker: int)
    requires
        0 < threads <= n,
        0 <= worker < threads,
    ensures
        row_count(n, threads, worker) >= 1,
{
    assert(n / threads >= 1) by (nonlinear_arith)
        requires
            0 < threads <= n,
    ;
}

} // verus!
