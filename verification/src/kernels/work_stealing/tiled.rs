use vstd::prelude::*;
use rayon::iter::{IndexedParallelIterator, ParallelIterator};
use rayon::slice::ParallelSliceMut;
use crate::element::Element;
use crate::kernels::common::{
    fill, lemma_part_may_accumulate, lemma_parts_accumulated, lemma_rows_are_product,
    lemma_square_rows, lemma_zero_rows_may_accumulate, rows_accumulated, rows_may_accumulate,
    tiled_rows,
};
use crate::kernels::GemmKernel;
use crate::matrix::Matrix;

verus! {

/// Rayon work-stealing implementation, partitioned into whole blocks of rows.
pub struct RayonTiledGemm {
    block_size: usize,
}

impl RayonTiledGemm {
    #[verifier::type_invariant]
    spec fn wf(self) -> bool {
        self.block_size > 0
    }

    /// The edge length of a tile.
    pub closed spec fn edge(self) -> nat {
        self.block_size as nat
    }

    #[must_use]
    pub fn new(block_size: usize) -> (kernel: Self)
        requires
            block_size > 0,
        ensures
            kernel.edge() == block_size,
    {
        Self { block_size }
    }

    /// Tests whether a group of rows of `n` elements each is countable.
    pub fn can_group(&self, n: usize) -> (can: bool)
        ensures
            can == (self.edge() * n <= usize::MAX),
    {
        self.block_size.checked_mul(n).is_some()
    }
}

/// Chunk number `index` of `data` cut into chunks of `size` elements, the last
/// of which holds what is left.
pub open spec fn chunk<T>(data: Seq<T>, size: int, index: int) -> Seq<T> {
    data.subrange(
        index * size,
        if index * size + size < data.len() {
            index * size + size
        } else {
            data.len() as int
        },
    )
}

/// Multiplies the rows of group number `tile_index`, where every group before
/// it holds `block_size` rows.
fn tile_group<T: Element>(
    lhs: &[T],
    rhs: &[T],
    output_rows: &mut [T],
    tile_index: usize,
    n: usize,
    block_size: usize,
)
    requires
        block_size > 0,
        rows_may_accumulate(lhs@, rhs@, old(output_rows)@, tile_index * block_size, n as int),
    ensures
        rows_accumulated(
            lhs@,
            rhs@,
            old(output_rows)@,
            final(output_rows)@,
            tile_index * block_size,
            n as int,
        ),
{
    tiled_rows(lhs, rhs, output_rows, tile_index * block_size, n, block_size)
}

/// Calls `ParallelSliceMut::par_chunks_mut` and `for_each` over the enumerated
/// chunks.
///
/// Rayon cuts `output` into non-overlapping chunks of `size` elements, the last
/// of which may be shorter, numbers them from zero in the order of the storage,
/// and calls the closure exactly once with each; the call returns when all of
/// them have returned. So every chunk ends up as `tile_group` leaves it. On
/// which threads, and in which order, is left open.
#[verifier::external_body]
fn par_chunks_tiled<T: Element>(
    lhs: &[T],
    rhs: &[T],
    output: &mut [T],
    size: usize,
    n: usize,
    block_size: usize,
)
    requires
        size > 0,
        block_size > 0,
        forall|t: int|
            0 <= t && t * size < old(output)@.len() ==> rows_may_accumulate(
                lhs@,
                rhs@,
                #[trigger] chunk(old(output)@, size as int, t),
                t * block_size,
                n as int,
            ),
    ensures
        final(output)@.len() == old(output)@.len(),
        forall|t: int|
            0 <= t && t * size < old(output)@.len() ==> rows_accumulated(
                lhs@,
                rhs@,
                chunk(old(output)@, size as int, t),
                #[trigger] chunk(final(output)@, size as int, t),
                t * block_size,
                n as int,
            ),
{
    output.par_chunks_mut(size).enumerate().for_each(
        |(tile_index, output_rows)|
            tile_group(lhs, rhs, output_rows, tile_index, n, block_size),
    );
}

/// The first row of a group, or `n` past the last group.
spec fn group_start(n: int, block_size: int, t: int) -> int {
    if t * block_size < n {
        t * block_size
    } else {
        n
    }
}

/// The chunks of `block_size * n` elements are the groups of `block_size` rows.
proof fn lemma_group_chunk<T>(data: Seq<T>, n: int, block_size: int, t: int)
    requires
        n > 0,
        block_size > 0,
        t >= 0,
        data.len() == n * n,
    ensures
        t * (block_size * n) < data.len() <==> t * block_size < n,
        t * block_size < n ==> chunk(data, block_size * n, t) == data.subrange(
            group_start(n, block_size, t) * n,
            group_start(n, block_size, t + 1) * n,
        ),
        0 <= group_start(n, block_size, t) <= group_start(n, block_size, t + 1) <= n,
{
    let first = t * block_size;
    assert(t * (block_size * n) == first * n) by (nonlinear_arith)
        requires
            first == t * block_size,
    ;
    assert((t + 1) * block_size == first + block_size) by (nonlinear_arith)
        requires
            first == t * block_size,
    ;
    assert(first >= 0) by (nonlinear_arith)
        requires
            first == t * block_size,
            t >= 0,
            block_size > 0,
    ;
    assert((first + block_size) * n == first * n + block_size * n) by (nonlinear_arith);
    assert(first < n <==> first * n < n * n) by (nonlinear_arith)
        requires
            n > 0,
    ;
    let last = first + block_size;
    assert(last < n <==> last * n < n * n) by (nonlinear_arith)
        requires
            n > 0,
    ;
}

impl<T: Element> GemmKernel<T> for RayonTiledGemm {
    open spec fn label(&self) -> Seq<char> {
        "rayon-tiled"@
    }

    /// A group of rows must be countable.
    open spec fn supports(&self, n: nat) -> bool {
        self.edge() * n <= usize::MAX
    }

    fn name(&self) -> (name: &'static str) {
        "rayon-tiled"
    }

    fn compute(&self, lhs: &Matrix<T>, rhs: &Matrix<T>, output: &mut Matrix<T>) {
        proof {
            use_type_invariant(self);
        }
        let n = lhs.cols();
        let block_size = self.block_size;
        let zero = T::default();
        fill(output.as_mut_slice(), zero);
        let ghost cleared = output@;
        proof {
            assert(self.edge() * lhs@.rows <= usize::MAX);
            lemma_zero_rows_may_accumulate(lhs@, rhs@, cleared, zero);
            lemma_square_rows(n as int);
            assert(block_size * n > 0) by (nonlinear_arith)
                requires
                    block_size > 0,
                    n > 0,
            ;
        }
        let size: usize = block_size * n;
        proof {
            assert forall|t: int| 0 <= t && t * size < cleared.data.len() implies rows_may_accumulate(
                lhs@.data,
                rhs@.data,
                #[trigger] chunk(cleared.data, size as int, t),
                t * block_size,
                n as int,
            ) by {
                lemma_group_chunk(cleared.data, n as int, block_size as int, t);
                lemma_part_may_accumulate(
                    lhs@.data,
                    rhs@.data,
                    cleared.data,
                    n as int,
                    group_start(n as int, block_size as int, t),
                    group_start(n as int, block_size as int, t + 1),
                );
            }
        }
        par_chunks_tiled(
            lhs.as_slice(),
            rhs.as_slice(),
            output.as_mut_slice(),
            size,
            n,
            block_size,
        );
        proof {
            let starts = |t: int| group_start(n as int, block_size as int, t);
            let parts = (n + block_size - 1) / (block_size as int);
            vstd::arithmetic::div_mod::lemma_fundamental_div_mod(
                n + block_size - 1,
                block_size as int,
            );
            assert(block_size * parts == parts * block_size) by (nonlinear_arith);
            assert(parts > 0) by (nonlinear_arith)
                requires
                    n > 0,
                    block_size > 0,
                    n + block_size - 1 == parts * block_size + (n + block_size - 1) % (
                    block_size as int),
                    0 <= (n + block_size - 1) % (block_size as int) < block_size,
            ;
            assert forall|t: int| 0 <= t < parts implies 0 <= #[trigger] starts(t) <= starts(t + 1)
                <= n && rows_accumulated(
                lhs@.data,
                rhs@.data,
                cleared.data.subrange(starts(t) * n, starts(t + 1) * n),
                output@.data.subrange(starts(t) * n, starts(t + 1) * n),
                starts(t),
                n as int,
            ) by {
                assert(t * block_size < n) by (nonlinear_arith)
                    requires
                        0 <= t < parts,
                        block_size > 0,
                        n + block_size - 1 == parts * block_size + (n + block_size - 1) % (
                        block_size as int),
                        0 <= (n + block_size - 1) % (block_size as int) < block_size,
                ;
                lemma_group_chunk(cleared.data, n as int, block_size as int, t);
                lemma_group_chunk(output@.data, n as int, block_size as int, t);
                assert(rows_accumulated(
                    lhs@.data,
                    rhs@.data,
                    chunk(cleared.data, size as int, t),
                    chunk(output@.data, size as int, t),
                    t * block_size,
                    n as int,
                ));
            }
            lemma_parts_accumulated(
                lhs@.data,
                rhs@.data,
                cleared.data,
                output@.data,
                n as int,
                parts,
                starts,
            );
            lemma_rows_are_product(lhs@, rhs@, cleared, output@, zero);
        }
    }
}

} // verus!
