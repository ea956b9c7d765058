//! The arithmetic that the kernels rely on, and what it means for a value to
//! be a sum of products built up one term at a time.
//!
//! Nothing is taken for granted of an element type's `+` and `*`: neither is
//! associative for floating-point numbers, and neither need be deterministic.
//! Every statement is therefore about which operations were performed, in
//! which order, and what each of them gave back.

use vstd::prelude::*;
use vstd::std_specs::ops::{AddSpec, MulSpec};
use std::ops::{Add, Mul};

verus! {

/// An element type the kernels can multiply.
///
/// `Default` supplies zero for clearing outputs and starting sums.
pub trait Element: Copy + Default + Send + Sync + Add<Output = Self> + Mul<
    Output = Self,
> + 'static {

}

impl<
    T: Copy + Default + Send + Sync + Add<Output = T> + Mul<Output = T> + 'static,
> Element for T {

}

/// `zero` is a value that `T::default()` can return.
pub open spec fn is_zero<T: Element>(zero: T) -> bool {
    call_ensures(T::default, (), zero)
}

/// `p` is a value that `a * b` can return.
pub open spec fn mul_gives<T: Element>(a: T, b: T, p: T) -> bool {
    call_ensures(<T as Mul>::mul, (a, b), p)
}

/// `s` is a value that `x + y` can return.
pub open spec fn add_gives<T: Element>(x: T, y: T, s: T) -> bool {
    call_ensures(<T as Add>::add, (x, y), s)
}

/// `to` is what `from + a * b` can return.
pub open spec fn step<T: Element>(a: T, b: T, from: T, to: T) -> bool {
    exists|p: T| #[trigger] mul_gives(a, b, p) && add_gives(from, p, to)
}

/// The operations `from + a * b` are allowed by the element type (an integer
/// type forbids those that overflow; a floating-point type forbids none).
pub open spec fn may_step<T: Element>(a: T, b: T, from: T) -> bool {
    &&& MulSpec::mul_req(a, b)
    &&& forall|p: T| #[trigger] mul_gives(a, b, p) ==> AddSpec::add_req(from, p)
}

/// The position of row `row` and column `col` in row-major storage with `n`
/// columns.
pub open spec fn cell(n: int, row: int, col: int) -> int {
    row * n + col
}

/// `to` comes from `from` by adding the products of row `i` of `lhs` and
/// column `j` of `rhs` for `k` from `lo` up to, and without, `hi`, one after
/// the other in ascending order of `k`.
pub open spec fn accumulated<T: Element>(
    lhs: Seq<T>,
    rhs: Seq<T>,
    n: int,
    i: int,
    j: int,
    lo: int,
    hi: int,
    from: T,
    to: T,
) -> bool
    decreases hi - lo,
{
    if hi <= lo {
        to == from
    } else {
        exists|prev: T|
            accumulated(lhs, rhs, n, i, j, lo, hi - 1, from, prev) && #[trigger] step(
                lhs[cell(n, i, hi - 1)],
                rhs[cell(n, hi - 1, j)],
                prev,
                to,
            )
    }
}

/// Every operation of such an accumulation that starts at `from` is allowed.
pub open spec fn may_accumulate<T: Element>(
    lhs: Seq<T>,
    rhs: Seq<T>,
    n: int,
    i: int,
    j: int,
    lo: int,
    hi: int,
    from: T,
) -> bool {
    forall|k: int, v: T|
        lo <= k < hi && #[trigger] accumulated(lhs, rhs, n, i, j, lo, k, from, v) ==> may_step(
            lhs[cell(n, i, k)],
            rhs[cell(n, k, j)],
            v,
        )
}

/// One more term extends an accumulation.
pub proof fn lemma_accumulate_step<T: Element>(
    lhs: Seq<T>,
    rhs: Seq<T>,
    n: int,
    i: int,
    j: int,
    lo: int,
    k: int,
    from: T,
    prev: T,
    to: T,
)
    requires
        lo <= k,
        accumulated(lhs, rhs, n, i, j, lo, k, from, prev),
        step(lhs[cell(n, i, k)], rhs[cell(n, k, j)], prev, to),
    ensures
        accumulated(lhs, rhs, n, i, j, lo, k + 1, from, to),
{
    assert(accumulated(lhs, rhs, n, i, j, lo, (k + 1) - 1, from, prev));
}

/// Two accumulations that meet make one.
pub proof fn lemma_accumulate_join<T: Element>(
    lhs: Seq<T>,
    rhs: Seq<T>,
    n: int,
    i: int,
    j: int,
    lo: int,
    mid: int,
    hi: int,
    from: T,
    at: T,
    to: T,
)
    requires
        lo <= mid <= hi,
        accumulated(lhs, rhs, n, i, j, lo, mid, from, at),
        accumulated(lhs, rhs, n, i, j, mid, hi, at, to),
    ensures
        accumulated(lhs, rhs, n, i, j, lo, hi, from, to),
    decreases hi - mid,
{
    if mid < hi {
        let prev = choose|prev: T|
            accumulated(lhs, rhs, n, i, j, mid, hi - 1, at, prev) && #[trigger] step(
                lhs[cell(n, i, hi - 1)],
                rhs[cell(n, hi - 1, j)],
                prev,
                to,
            );
        lemma_accumulate_join(lhs, rhs, n, i, j, lo, mid, hi - 1, from, at, prev);
        lemma_accumulate_step(lhs, rhs, n, i, j, lo, hi - 1, from, prev, to);
    }
}

/// The rest of an allowed accumulation is allowed from wherever its first
/// part arrived.
pub proof fn lemma_may_accumulate_rest<T: Element>(
    lhs: Seq<T>,
    rhs: Seq<T>,
    n: int,
    i: int,
    j: int,
    lo: int,
    mid: int,
    hi: int,
    from: T,
    at: T,
)
    requires
        lo <= mid <= hi,
        may_accumulate(lhs, rhs, n, i, j, lo, hi, from),
        accumulated(lhs, rhs, n, i, j, lo, mid, from, at),
    ensures
        may_accumulate(lhs, rhs, n, i, j, mid, hi, at),
{
    assert forall|k: int, v: T|
        mid <= k < hi && #[trigger] accumulated(lhs, rhs, n, i, j, mid, k, at, v) implies may_step(
        lhs[cell(n, i, k)],
        rhs[cell(n, k, j)],
        v,
    ) by {
        lemma_accumulate_join(lhs, rhs, n, i, j, lo, mid, k, from, at, v);
    }
}

} // verus!
