//! What holds of every kernel, whichever way it goes about its work.

use vstd::prelude::*;
use vstd::std_specs::ops::{AddSpec, MulSpec};
use std::ops::{Add, Mul};
use crate::element::{
    accumulated, add_gives, cell, is_zero, may_accumulate, may_step, mul_gives, step, Element,
};
use rayon::{ThreadPool, ThreadPoolBuildError};
use crate::kernels::common::{assert_gemm_dimensions, dimension_fault, DimensionError};
use crate::kernels::pool::{pool_threads, small_pools_are_granted};
use crate::kernels::{
    gemm_dimensions, is_product, product_allowed, product_entry, GemmKernel, IkjGemm, KernelError,
    NaiveGemm, Pooled, RayonIkjGemm, RayonTiledGemm, StaticIkjGemm, StaticTiledGemm, TiledGemm,
};
use crate::matrix::{lemma_cell_bounds, lemma_cell_of, Matrix, MatrixView};

verus! {

/// The element type has one zero, and its operations give one result.
pub open spec fn deterministic<T: Element>() -> bool {
    &&& forall|x: T, y: T| #[trigger] is_zero(x) && #[trigger] is_zero(y) ==> x == y
    &&& forall|a: T, b: T, p: T, q: T| #[trigger]
        mul_gives(a, b, p) && #[trigger] mul_gives(a, b, q) ==> p == q
    &&& forall|x: T, y: T, s: T, t: T| #[trigger]
        add_gives(x, y, s) && #[trigger] add_gives(x, y, t) ==> s == t
}

/// `from + a * b` has one result.
pub open spec fn step_decided<T: Element>(a: T, b: T, from: T) -> bool {
    forall|one: T, other: T| #[trigger]
        step(a, b, from, one) && #[trigger] step(a, b, from, other) ==> one == other
}

/// Every operation that the product of `lhs` and `rhs` can come to perform has
/// one result. Operations on other elements, such as those of floating-point
/// numbers that make a NaN of unspecified bits, may have many.
pub open spec fn product_decided<T: Element>(lhs: MatrixView<T>, rhs: MatrixView<T>) -> bool {
    &&& forall|x: T, y: T| #[trigger] is_zero(x) && #[trigger] is_zero(y) ==> x == y
    &&& forall|i: int, j: int, k: int, zero: T, v: T|
        0 <= i < lhs.rows && 0 <= j < rhs.cols && 0 <= k < lhs.cols && is_zero(zero)
            && #[trigger] accumulated(
            lhs.data,
            rhs.data,
            lhs.cols as int,
            i,
            j,
            0,
            k,
            zero,
            v,
        ) ==> step_decided(
            lhs.data[cell(lhs.cols as int, i, k)],
            rhs.data[cell(lhs.cols as int, k, j)],
            v,
        )
}

proof fn lemma_accumulated_unique<T: Element>(
    lhs: MatrixView<T>,
    rhs: MatrixView<T>,
    i: int,
    j: int,
    hi: int,
    zero: T,
    one: T,
    other: T,
)
    requires
        product_decided(lhs, rhs),
        0 <= i < lhs.rows,
        0 <= j < rhs.cols,
        hi <= lhs.cols,
        is_zero(zero),
        accumulated(lhs.data, rhs.data, lhs.cols as int, i, j, 0, hi, zero, one),
        accumulated(lhs.data, rhs.data, lhs.cols as int, i, j, 0, hi, zero, other),
    ensures
        one == other,
    decreases hi,
{
    if hi > 0 {
        let n = lhs.cols as int;
        let a = lhs.data[cell(n, i, hi - 1)];
        let b = rhs.data[cell(n, hi - 1, j)];
        let p = choose|p: T|
            accumulated(lhs.data, rhs.data, n, i, j, 0, hi - 1, zero, p) && #[trigger] step(
                a,
                b,
                p,
                one,
            );
        let q = choose|q: T|
            accumulated(lhs.data, rhs.data, n, i, j, 0, hi - 1, zero, q) && #[trigger] step(
                a,
                b,
                q,
                other,
            );
        lemma_accumulated_unique(lhs, rhs, i, j, hi - 1, zero, p, q);
        assert(step_decided(a, b, p));
    }
}

/// Every kernel matches every other, to the last bit, wherever the operations
/// that the product performs have one result each: two products of the same
/// matrices are equal, whatever the outputs held before, whichever kernels
/// computed them, with whatever tiles, however many threads, and however often.
pub proof fn decided_products_agree<T: Element>(
    lhs: MatrixView<T>,
    rhs: MatrixView<T>,
    one: MatrixView<T>,
    other: MatrixView<T>,
)
    requires
        product_decided(lhs, rhs),
        is_product(lhs, rhs, one),
        is_product(lhs, rhs, other),
    ensures
        one == other,
{
    let rows = one.rows as int;
    let cols = one.cols as int;
    assert forall|x: int| 0 <= x < one.data.len() implies #[trigger] one.data[x]
        == other.data[x] by {
        assert(cols > 0) by (nonlinear_arith)
            requires
                0 <= x < rows * cols,
                rows >= 0,
                cols >= 0,
        ;
        lemma_cell_of(rows, cols, x);
        let i = x / cols;
        let j = x % cols;
        assert(product_entry(lhs, rhs, i, j, one.at(i, j)));
        assert(product_entry(lhs, rhs, i, j, other.at(i, j)));
        let n = lhs.cols as int;
        let zero = choose|zero: T| #[trigger]
            is_zero(zero) && accumulated(lhs.data, rhs.data, n, i, j, 0, n, zero, one.at(i, j));
        let null = choose|null: T| #[trigger]
            is_zero(null) && accumulated(lhs.data, rhs.data, n, i, j, 0, n, null, other.at(i, j));
        assert(zero == null);
        lemma_accumulated_unique(lhs, rhs, i, j, n, zero, one.at(i, j), other.at(i, j));
    }
    assert(one.data =~= other.data);
}

/// Where all operations of the element type have one result, every kernel
/// matches every other on all matrices.
pub proof fn kernels_agree<T: Element>(
    lhs: MatrixView<T>,
    rhs: MatrixView<T>,
    one: MatrixView<T>,
    other: MatrixView<T>,
)
    requires
        deterministic::<T>(),
        is_product(lhs, rhs, one),
        is_product(lhs, rhs, other),
    ensures
        one == other,
{
    assert forall|a: T, b: T, from: T| #[trigger] step_decided(a, b, from) by {
        assert forall|s: T, t: T| #[trigger]
            step(a, b, from, s) && #[trigger] step(a, b, from, t) implies s == t by {
            let p = choose|p: T| #[trigger] mul_gives(a, b, p) && add_gives(from, p, s);
            let q = choose|q: T| #[trigger] mul_gives(a, b, q) && add_gives(from, q, t);
            assert(p == q);
            assert(add_gives(from, p, s) && add_gives(from, p, t));
        }
    }
    decided_products_agree(lhs, rhs, one, other);
}

/// A value that is settled has one way to come about: an operation that can
/// give it gives nothing else, and only from settled values is it summed. This
/// is so of the floating-point numbers that are no NaN, since a sum with a NaN
/// is a NaN.
pub open spec fn settles<T: Element>(settled: spec_fn(T) -> bool) -> bool {
    &&& forall|x: T, y: T| #[trigger] is_zero(x) && #[trigger] is_zero(y) ==> x == y
    &&& forall|a: T, b: T, p: T, q: T| #[trigger]
        mul_gives(a, b, p) && #[trigger] mul_gives(a, b, q) && settled(p) ==> p == q
    &&& forall|x: T, y: T, s: T, t: T| #[trigger]
        add_gives(x, y, s) && #[trigger] add_gives(x, y, t) && settled(s) ==> s == t
    &&& forall|x: T, y: T, s: T| #[trigger]
        add_gives(x, y, s) && settled(s) ==> settled(x) && settled(y)
}

proof fn lemma_settled_unique<T: Element>(
    settled: spec_fn(T) -> bool,
    lhs: Seq<T>,
    rhs: Seq<T>,
    n: int,
    i: int,
    j: int,
    hi: int,
    zero: T,
    one: T,
    other: T,
)
    requires
        settles(settled),
        settled(one),
        accumulated(lhs, rhs, n, i, j, 0, hi, zero, one),
        accumulated(lhs, rhs, n, i, j, 0, hi, zero, other),
    ensures
        one == other,
    decreases hi,
{
    if hi > 0 {
        let a = lhs[cell(n, i, hi - 1)];
        let b = rhs[cell(n, hi - 1, j)];
        let from = choose|from: T|
            accumulated(lhs, rhs, n, i, j, 0, hi - 1, zero, from) && #[trigger] step(
                a,
                b,
                from,
                one,
            );
        let start = choose|start: T|
            accumulated(lhs, rhs, n, i, j, 0, hi - 1, zero, start) && #[trigger] step(
                a,
                b,
                start,
                other,
            );
        let p = choose|p: T| #[trigger] mul_gives(a, b, p) && add_gives(from, p, one);
        let q = choose|q: T| #[trigger] mul_gives(a, b, q) && add_gives(start, q, other);
        assert(p == q);
        lemma_settled_unique(settled, lhs, rhs, n, i, j, hi - 1, zero, from, start);
        assert(add_gives(from, p, one) && add_gives(from, p, other));
    }
}

/// Every kernel matches every other, to the last bit, wherever one of them
/// arrives at settled values only, such as numbers and no NaN: neither the
/// kernel, nor its tiles, nor the number of its threads, nor what the output
/// held before, nor repetition changes a result.
pub proof fn settled_products_agree<T: Element>(
    settled: spec_fn(T) -> bool,
    lhs: MatrixView<T>,
    rhs: MatrixView<T>,
    one: MatrixView<T>,
    other: MatrixView<T>,
)
    requires
        settles(settled),
        is_product(lhs, rhs, one),
        is_product(lhs, rhs, other),
        forall|x: int| 0 <= x < one.data.len() ==> settled(#[trigger] one.data[x]),
    ensures
        one == other,
{
    let rows = one.rows as int;
    let cols = one.cols as int;
    assert forall|x: int| 0 <= x < one.data.len() implies #[trigger] one.data[x]
        == other.data[x] by {
        assert(cols > 0) by (nonlinear_arith)
            requires
                0 <= x < rows * cols,
                rows >= 0,
                cols >= 0,
        ;
        lemma_cell_of(rows, cols, x);
        let i = x / cols;
        let j = x % cols;
        assert(product_entry(lhs, rhs, i, j, one.at(i, j)));
        assert(product_entry(lhs, rhs, i, j, other.at(i, j)));
        let n = lhs.cols as int;
        let zero = choose|zero: T| #[trigger]
            is_zero(zero) && accumulated(lhs.data, rhs.data, n, i, j, 0, n, zero, one.at(i, j));
        let null = choose|null: T| #[trigger]
            is_zero(null) && accumulated(lhs.data, rhs.data, n, i, j, 0, n, null, other.at(i, j));
        assert(zero == null);
        lemma_settled_unique(
            settled,
            lhs.data,
            rhs.data,
            n,
            i,
            j,
            n,
            zero,
            one.at(i, j),
            other.at(i, j),
        );
    }
    assert(one.data =~= other.data);
}

/// An output keeps its shape when a product is written to it.
pub proof fn products_keep_the_shape<T: Element>(
    lhs: MatrixView<T>,
    rhs: MatrixView<T>,
    before: MatrixView<T>,
    after: MatrixView<T>,
)
    requires
        gemm_dimensions(lhs, rhs, before),
        is_product(lhs, rhs, after),
    ensures
        after.wf(),
        after.rows == before.rows,
        after.cols == before.cols,
        after.data.len() == before.data.len(),
{
}

/// `lhs` is the identity: `unit` on the diagonal and `null` elsewhere.
pub open spec fn is_identity<T>(lhs: MatrixView<T>, unit: T, null: T) -> bool {
    forall|i: int, k: int|
        0 <= i < lhs.rows && 0 <= k < lhs.cols ==> #[trigger] lhs.at(i, k) == if i == k {
            unit
        } else {
            null
        }
}

/// On the elements of `rhs`, `unit` and `null` act as one and zero do: a
/// product with `unit`, added to zero, gives the element, and a product with
/// `null`, added to zero or to an element, changes nothing.
pub open spec fn acts_as_unit<T: Element>(rhs: MatrixView<T>, unit: T, null: T) -> bool {
    &&& forall|k: int, j: int, zero: T, to: T|
        0 <= k < rhs.rows && 0 <= j < rhs.cols && is_zero(zero) && #[trigger] step(
            unit,
            rhs.at(k, j),
            zero,
            to,
        ) ==> to == rhs.at(k, j)
    &&& forall|k: int, j: int, from: T, to: T|
        0 <= k < rhs.rows && 0 <= j < rhs.cols && (is_zero(from) || rhs.data.contains(from))
            && #[trigger] step(null, rhs.at(k, j), from, to) ==> to == from
}

proof fn lemma_identity_sum<T: Element>(
    lhs: MatrixView<T>,
    rhs: MatrixView<T>,
    unit: T,
    null: T,
    zero: T,
    i: int,
    j: int,
    k: int,
    value: T,
)
    requires
        lhs.rows == lhs.cols == rhs.rows == rhs.cols,
        rhs.wf(),
        is_identity(lhs, unit, null),
        acts_as_unit(rhs, unit, null),
        is_zero(zero),
        0 <= i < lhs.rows,
        0 <= j < rhs.cols,
        k <= lhs.cols,
        accumulated(lhs.data, rhs.data, lhs.cols as int, i, j, 0, k, zero, value),
    ensures
        value == if k <= i {
            zero
        } else {
            rhs.at(i, j)
        },
    decreases k,
{
    if k > 0 {
        let n = lhs.cols as int;
        let a = lhs.data[cell(n, i, k - 1)];
        let b = rhs.data[cell(n, k - 1, j)];
        let prev = choose|prev: T|
            accumulated(lhs.data, rhs.data, n, i, j, 0, k - 1, zero, prev) && #[trigger] step(
                a,
                b,
                prev,
                value,
            );
        lemma_identity_sum(lhs, rhs, unit, null, zero, i, j, k - 1, prev);
        lemma_cell_bounds(n, n, i, j);
        assert(rhs.data.contains(rhs.data[cell(n, i, j)]));
        assert(a == lhs.at(i, k - 1));
        assert(b == rhs.at(k - 1, j));
    }
}

/// The product of the identity and a matrix is that matrix.
pub proof fn identity_products_are_the_other_factor<T: Element>(
    lhs: MatrixView<T>,
    rhs: MatrixView<T>,
    output: MatrixView<T>,
    unit: T,
    null: T,
)
    requires
        lhs.rows == lhs.cols == rhs.rows == rhs.cols,
        rhs.wf(),
        is_identity(lhs, unit, null),
        acts_as_unit(rhs, unit, null),
        is_product(lhs, rhs, output),
    ensures
        output == rhs,
{
    let n = lhs.cols as int;
    assert forall|x: int| 0 <= x < output.data.len() implies #[trigger] output.data[x]
        == rhs.data[x] by {
        assert(n > 0) by (nonlinear_arith)
            requires
                0 <= x < n * n,
                n >= 0,
        ;
        lemma_cell_of(n, n, x);
        let i = x / n;
        let j = x % n;
        assert(product_entry(lhs, rhs, i, j, output.at(i, j)));
        let zero = choose|zero: T| #[trigger]
            is_zero(zero) && accumulated(lhs.data, rhs.data, n, i, j, 0, n, zero, output.at(i, j));
        lemma_identity_sum(lhs, rhs, unit, null, zero, i, j, n, output.at(i, j));
    }
    assert(output.data =~= rhs.data);
}

/// The sum of the first `k` products of row `i` and column `j`, by the element
/// type's own functional `+` and `*`.
pub open spec fn dot<T: Element>(
    lhs: MatrixView<T>,
    rhs: MatrixView<T>,
    zero: T,
    i: int,
    j: int,
    k: int,
) -> T
    decreases k,
{
    if k <= 0 {
        zero
    } else {
        AddSpec::add_spec(
            dot(lhs, rhs, zero, i, j, k - 1),
            MulSpec::mul_spec(lhs.at(i, k - 1), rhs.at(k - 1, j)),
        )
    }
}

/// Where `+` and `*` are functions, an entry of a product is the sum of
/// products, folded from the left.
pub proof fn product_entry_is_dot<T: Element>(
    lhs: MatrixView<T>,
    rhs: MatrixView<T>,
    output: MatrixView<T>,
    zero: T,
    i: int,
    j: int,
)
    requires
        <T as AddSpec>::obeys_add_spec(),
        <T as MulSpec>::obeys_mul_spec(),
        forall|z: T| #[trigger] is_zero(z) ==> z == zero,
        lhs.cols == rhs.cols,
        is_product(lhs, rhs, output),
        0 <= i < output.rows,
        0 <= j < output.cols,
    ensures
        output.at(i, j) == dot(lhs, rhs, zero, i, j, lhs.cols as int),
{
    let n = lhs.cols as int;
    assert(product_entry(lhs, rhs, i, j, output.at(i, j)));
    lemma_dot(lhs, rhs, zero, i, j, n, output.at(i, j));
}

proof fn lemma_dot<T: Element>(
    lhs: MatrixView<T>,
    rhs: MatrixView<T>,
    zero: T,
    i: int,
    j: int,
    k: int,
    value: T,
)
    requires
        <T as AddSpec>::obeys_add_spec(),
        <T as MulSpec>::obeys_mul_spec(),
        lhs.cols == rhs.cols,
        accumulated(lhs.data, rhs.data, lhs.cols as int, i, j, 0, k, zero, value),
    ensures
        value == dot(lhs, rhs, zero, i, j, k),
    decreases k,
{
    if k > 0 {
        let n = lhs.cols as int;
        let a = lhs.data[cell(n, i, k - 1)];
        let b = rhs.data[cell(n, k - 1, j)];
        let prev = choose|prev: T|
            accumulated(lhs.data, rhs.data, n, i, j, 0, k - 1, zero, prev) && #[trigger] step(
                a,
                b,
                prev,
                value,
            );
        lemma_dot(lhs, rhs, zero, i, j, k - 1, prev);
        let p = choose|p: T| #[trigger] mul_gives(a, b, p) && add_gives(prev, p, value);
    }
}

/// The element type computes exactly wherever it allows an operation: `number`
/// says which integer an element stands for, and zero, `+` and `*` stand for
/// zero, `+` and `*`. Integer types do, since they allow no overflow.
pub open spec fn exact<T: Element>(number: spec_fn(T) -> int) -> bool {
    &&& forall|z: T| #[trigger] is_zero(z) ==> number(z) == 0
    &&& forall|a: T, b: T, p: T| #[trigger]
        mul_gives(a, b, p) && MulSpec::mul_req(a, b) ==> number(p) == number(a) * number(b)
    &&& forall|x: T, y: T, s: T| #[trigger]
        add_gives(x, y, s) && AddSpec::add_req(x, y) ==> number(s) == number(x) + number(y)
}

/// The sum of the first `k` products of row `i` and column `j`, as an integer.
pub open spec fn integer_dot<T>(
    number: spec_fn(T) -> int,
    lhs: MatrixView<T>,
    rhs: MatrixView<T>,
    i: int,
    j: int,
    k: int,
) -> int
    decreases k,
{
    if k <= 0 {
        0
    } else {
        integer_dot(number, lhs, rhs, i, j, k - 1) + number(lhs.at(i, k - 1)) * number(
            rhs.at(k - 1, j),
        )
    }
}

/// `c == a * b`: where elements compute exactly, an entry of a product is the
/// entry of the product of the matrices of integers.
pub proof fn exact_product_is_matrix_product<T: Element>(
    number: spec_fn(T) -> int,
    lhs: MatrixView<T>,
    rhs: MatrixView<T>,
    output: MatrixView<T>,
    i: int,
    j: int,
)
    requires
        exact(number),
        lhs.cols == rhs.cols,
        product_allowed(lhs, rhs),
        is_product(lhs, rhs, output),
        0 <= i < output.rows,
        0 <= j < output.cols,
    ensures
        number(output.at(i, j)) == integer_dot(number, lhs, rhs, i, j, lhs.cols as int),
{
    assert(product_entry(lhs, rhs, i, j, output.at(i, j)));
    let n = lhs.cols as int;
    let zero = choose|zero: T| #[trigger]
        is_zero(zero) && accumulated(lhs.data, rhs.data, n, i, j, 0, n, zero, output.at(i, j));
    assert(may_accumulate(lhs.data, rhs.data, n, i, j, 0, n, zero));
    lemma_integer_dot(number, lhs, rhs, zero, i, j, n, output.at(i, j));
}

proof fn lemma_integer_dot<T: Element>(
    number: spec_fn(T) -> int,
    lhs: MatrixView<T>,
    rhs: MatrixView<T>,
    zero: T,
    i: int,
    j: int,
    k: int,
    value: T,
)
    requires
        exact(number),
        is_zero(zero),
        lhs.cols == rhs.cols,
        k <= lhs.cols,
        may_accumulate(
            lhs.data,
            rhs.data,
            lhs.cols as int,
            i,
            j,
            0,
            lhs.cols as int,
            zero,
        ),
        accumulated(lhs.data, rhs.data, lhs.cols as int, i, j, 0, k, zero, value),
    ensures
        number(value) == integer_dot(number, lhs, rhs, i, j, k),
    decreases k,
{
    if k > 0 {
        let n = lhs.cols as int;
        let a = lhs.data[cell(n, i, k - 1)];
        let b = rhs.data[cell(n, k - 1, j)];
        let prev = choose|prev: T|
            accumulated(lhs.data, rhs.data, n, i, j, 0, k - 1, zero, prev) && #[trigger] step(
                a,
                b,
                prev,
                value,
            );
        lemma_integer_dot(number, lhs, rhs, zero, i, j, k - 1, prev);
        assert(may_step(a, b, prev));
        let p = choose|p: T| #[trigger] mul_gives(a, b, p) && add_gives(prev, p, value);
    }
}

/// An element type whose operations are allowed on all operands, as those of
/// floating-point numbers are, allows every product.
pub proof fn total_elements_allow_every_product<T: Element>(lhs: MatrixView<T>, rhs: MatrixView<T>)
    requires
        forall|a: T, b: T| #[trigger] MulSpec::mul_req(a, b),
        forall|x: T, y: T| #[trigger] AddSpec::add_req(x, y),
    ensures
        product_allowed(lhs, rhs),
{
}

/// `sums` are the sums of products that lead to an element: the first is what
/// `T::default()` returned, and each of the others what `+` returned for the sum
/// before and the next of the `products`. These are what `*` returned for the
/// elements of row `i` and column `j`, from the first to the last.
pub open spec fn adds_up<T: Element>(
    lhs: Seq<T>,
    rhs: Seq<T>,
    n: int,
    i: int,
    j: int,
    sums: Seq<T>,
    products: Seq<T>,
) -> bool {
    &&& products.len() == n
    &&& sums.len() == n + 1
    &&& call_ensures(T::default, (), sums[0])
    &&& forall|k: int|
        0 <= k < n ==> call_ensures(
            <T as Mul>::mul,
            (lhs[i * n + k], rhs[k * n + j]),
            #[trigger] products[k],
        ) && call_ensures(<T as Add>::add, (sums[k], products[k]), sums[k + 1])
}

proof fn lemma_sums<T: Element>(
    lhs: Seq<T>,
    rhs: Seq<T>,
    n: int,
    i: int,
    j: int,
    hi: int,
    zero: T,
    value: T,
) -> (found: (Seq<T>, Seq<T>))
    requires
        0 <= hi,
        accumulated(lhs, rhs, n, i, j, 0, hi, zero, value),
    ensures
        found.1.len() == hi,
        found.0.len() == hi + 1,
        found.0[0] == zero,
        found.0[hi] == value,
        forall|k: int|
            0 <= k < hi ==> mul_gives(
                lhs[i * n + k],
                rhs[k * n + j],
                #[trigger] found.1[k],
            ) && add_gives(found.0[k], found.1[k], found.0[k + 1]),
    decreases hi,
{
    if hi == 0 {
        (seq![zero], Seq::empty())
    } else {
        let a = lhs[cell(n, i, hi - 1)];
        let b = rhs[cell(n, hi - 1, j)];
        let prev = choose|prev: T|
            accumulated(lhs, rhs, n, i, j, 0, hi - 1, zero, prev) && #[trigger] step(
                a,
                b,
                prev,
                value,
            );
        let p = choose|p: T| #[trigger] mul_gives(a, b, p) && add_gives(prev, p, value);
        let (sums, products) = lemma_sums(lhs, rhs, n, i, j, hi - 1, zero, prev);
        let longer = (sums.push(value), products.push(p));
        assert forall|k: int| 0 <= k < hi implies mul_gives(
            lhs[i * n + k],
            rhs[k * n + j],
            #[trigger] longer.1[k],
        ) && add_gives(longer.0[k], longer.1[k], longer.0[k + 1]) by {
            if k < hi - 1 {
                assert(longer.1[k] == products[k]);
            }
        }
        longer
    }
}

/// Every element of a product is a sum that starts at zero and takes in all
/// products of its row of `lhs` and its column of `rhs`, one after the other,
/// each once. Nothing else enters it, for every element type.
pub proof fn every_element_adds_up<T: Element>(
    lhs: MatrixView<T>,
    rhs: MatrixView<T>,
    output: MatrixView<T>,
    i: int,
    j: int,
)
    requires
        is_product(lhs, rhs, output),
        0 <= i < lhs.rows,
        0 <= j < rhs.cols,
        output.cols == lhs.cols,
    ensures
        output.rows == lhs.rows,
        output.cols == rhs.cols,
        output.data.len() == output.rows * output.cols,
        exists|sums: Seq<T>, products: Seq<T>| #[trigger]
            adds_up(lhs.data, rhs.data, lhs.cols as int, i, j, sums, products)
                && sums[lhs.cols as int] == output.data[i * lhs.cols + j],
{
    let n = lhs.cols as int;
    assert(product_entry(lhs, rhs, i, j, output.at(i, j)));
    let zero = choose|zero: T| #[trigger]
        is_zero(zero) && accumulated(lhs.data, rhs.data, n, i, j, 0, n, zero, output.at(i, j));
    let (sums, products) = lemma_sums(lhs.data, rhs.data, n, i, j, n, zero, output.at(i, j));
    assert(adds_up(lhs.data, rhs.data, n, i, j, sums, products));
}

proof fn lemma_dot_is_sum<T>(
    number: spec_fn(T) -> int,
    lhs: MatrixView<T>,
    rhs: MatrixView<T>,
    i: int,
    j: int,
    k: int,
    terms: Seq<int>,
    plus: spec_fn(int, int) -> int,
)
    requires
        0 <= k <= terms.len(),
        lhs.cols == rhs.cols,
        forall|x: int, y: int| #[trigger] plus(x, y) == x + y,
        forall|t: int|
            0 <= t < terms.len() ==> #[trigger] terms[t] == number(lhs.data[i * lhs.cols + t])
                * number(rhs.data[t * lhs.cols + j]),
    ensures
        integer_dot(number, lhs, rhs, i, j, k) == terms.take(k).fold_left(0, plus),
    decreases k,
{
    if k > 0 {
        lemma_dot_is_sum(number, lhs, rhs, i, j, k - 1, terms, plus);
        assert(terms.take(k).drop_last() == terms.take(k - 1));
        assert(terms.take(k).last() == terms[k - 1]);
    }
}

/// `c == a * b`: where elements compute exactly, every element of a product is
/// the sum of the products of its row and its column, as integers.
pub proof fn exact_elements_are_sums_of_products<T: Element>(
    number: spec_fn(T) -> int,
    lhs: MatrixView<T>,
    rhs: MatrixView<T>,
    output: MatrixView<T>,
    i: int,
    j: int,
)
    requires
        exact(number),
        lhs.cols == rhs.cols,
        product_allowed(lhs, rhs),
        is_product(lhs, rhs, output),
        0 <= i < lhs.rows,
        0 <= j < rhs.cols,
    ensures
        number(output.data[i * lhs.cols + j]) == Seq::new(
            lhs.cols,
            |k: int| number(lhs.data[i * lhs.cols + k]) * number(rhs.data[k * lhs.cols + j]),
        ).fold_left(0, |sum: int, term: int| sum + term),
{
    let n = lhs.cols as int;
    let terms = Seq::new(
        lhs.cols,
        |k: int| number(lhs.data[i * lhs.cols + k]) * number(rhs.data[k * lhs.cols + j]),
    );
    exact_product_is_matrix_product(number, lhs, rhs, output, i, j);
    lemma_dot_is_sum(number, lhs, rhs, i, j, n, terms, |sum: int, term: int| sum + term);
    assert(terms.take(n) == terms);
}

/// Unsigned integers compute exactly wherever they allow an operation.
pub proof fn unsigned_integers_are_exact()
    ensures
        exact(|x: u64| x as int),
{
}

/// A product of matrices of unsigned integers is that of the matrices.
pub proof fn unsigned_elements_are_sums_of_products(
    lhs: MatrixView<u64>,
    rhs: MatrixView<u64>,
    output: MatrixView<u64>,
    i: int,
    j: int,
)
    requires
        lhs.cols == rhs.cols,
        product_allowed(lhs, rhs),
        is_product(lhs, rhs, output),
        0 <= i < lhs.rows,
        0 <= j < rhs.cols,
    ensures
        output.data[i * lhs.cols + j] == Seq::new(
            lhs.cols,
            |k: int| lhs.data[i * lhs.cols + k] * rhs.data[k * lhs.cols + j],
        ).fold_left(0, |sum: int, term: int| sum + term),
{
    let number = |x: u64| x as int;
    unsigned_integers_are_exact();
    exact_elements_are_sums_of_products(number, lhs, rhs, output, i, j);
    assert(Seq::new(
        lhs.cols,
        |k: int| number(lhs.data[i * lhs.cols + k]) * number(rhs.data[k * lhs.cols + j]),
    ) =~= Seq::new(lhs.cols, |k: int| lhs.data[i * lhs.cols + k] * rhs.data[k * lhs.cols + j]));
}

proof fn lemma_unsigned_dot_grows(
    lhs: MatrixView<u64>,
    rhs: MatrixView<u64>,
    i: int,
    j: int,
    a: int,
    b: int,
)
    requires
        0 <= a <= b,
    ensures
        0 <= integer_dot(|x: u64| x as int, lhs, rhs, i, j, a) <= integer_dot(
            |x: u64| x as int,
            lhs,
            rhs,
            i,
            j,
            b,
        ),
    decreases b,
{
    let number = |x: u64| x as int;
    if b > 0 {
        let x = number(lhs.at(i, b - 1));
        let y = number(rhs.at(b - 1, j));
        assert(x * y >= 0) by (nonlinear_arith)
            requires
                x >= 0,
                y >= 0,
        ;
        if a < b {
            lemma_unsigned_dot_grows(lhs, rhs, i, j, a, b - 1);
        } else {
            lemma_unsigned_dot_grows(lhs, rhs, i, j, b - 1, b - 1);
        }
    }
}

proof fn lemma_unsigned_sum(
    lhs: MatrixView<u64>,
    rhs: MatrixView<u64>,
    zero: u64,
    i: int,
    j: int,
    k: int,
    value: u64,
)
    requires
        lhs.cols == rhs.cols,
        is_zero(zero),
        0 <= k <= lhs.cols,
        integer_dot(|x: u64| x as int, lhs, rhs, i, j, lhs.cols as int) <= u64::MAX,
        accumulated(lhs.data, rhs.data, lhs.cols as int, i, j, 0, k, zero, value),
    ensures
        value == integer_dot(|x: u64| x as int, lhs, rhs, i, j, k),
        k < lhs.cols ==> may_step(
            lhs.data[cell(lhs.cols as int, i, k)],
            rhs.data[cell(lhs.cols as int, k, j)],
            value,
        ),
    decreases k,
{
    let number = |x: u64| x as int;
    let n = lhs.cols as int;
    unsigned_integers_are_exact();
    if k > 0 {
        let a = lhs.data[cell(n, i, k - 1)];
        let b = rhs.data[cell(n, k - 1, j)];
        let prev = choose|prev: u64|
            accumulated(lhs.data, rhs.data, n, i, j, 0, k - 1, zero, prev) && #[trigger] step(
                a,
                b,
                prev,
                value,
            );
        lemma_unsigned_sum(lhs, rhs, zero, i, j, k - 1, prev);
        let p = choose|p: u64| #[trigger] mul_gives(a, b, p) && add_gives(prev, p, value);
        assert(a == lhs.at(i, k - 1) && b == rhs.at(k - 1, j));
        assert(number(p) == number(a) * number(b));
        assert(number(value) == number(prev) + number(p));
    }
    if k < n {
        lemma_unsigned_dot_grows(lhs, rhs, i, j, k + 1, n);
        lemma_unsigned_dot_grows(lhs, rhs, i, j, k, k);
        let a = lhs.data[cell(n, i, k)];
        let b = rhs.data[cell(n, k, j)];
        assert(a == lhs.at(i, k) && b == rhs.at(k, j));
        assert(a * b >= 0) by (nonlinear_arith)
            requires
                a >= 0,
                b >= 0,
        ;
        assert(integer_dot(number, lhs, rhs, i, j, k + 1) == integer_dot(
            number,
            lhs,
            rhs,
            i,
            j,
            k,
        ) + number(a) * number(b));
    }
}

/// Unsigned integers allow every product whose elements they can hold.
pub proof fn sums_that_fit_are_allowed(lhs: MatrixView<u64>, rhs: MatrixView<u64>)
    requires
        lhs.cols == rhs.cols,
        forall|i: int, j: int|
            #![trigger lhs.at(i, j)]
            0 <= i < lhs.rows && 0 <= j < rhs.cols ==> Seq::new(
                lhs.cols,
                |k: int| lhs.data[i * lhs.cols + k] * rhs.data[k * lhs.cols + j],
            ).fold_left(0, |sum: int, term: int| sum + term) <= u64::MAX,
    ensures
        product_allowed(lhs, rhs),
{
    let number = |x: u64| x as int;
    let n = lhs.cols as int;
    assert forall|i: int, j: int, zero: u64|
        0 <= i < lhs.rows && 0 <= j < rhs.cols && is_zero(zero) implies #[trigger] may_accumulate(
        lhs.data,
        rhs.data,
        n,
        i,
        j,
        0,
        n,
        zero,
    ) by {
        let terms = Seq::new(
            lhs.cols,
            |k: int| lhs.data[i * lhs.cols + k] * rhs.data[k * lhs.cols + j],
        );
        let first = lhs.at(i, j);
        assert(terms.fold_left(0, |sum: int, term: int| sum + term) <= u64::MAX);
        lemma_dot_is_sum(number, lhs, rhs, i, j, n, terms, |sum: int, term: int| sum + term);
        assert(terms.take(n) == terms);
        assert forall|k: int, v: u64|
            0 <= k < n && #[trigger] accumulated(
                lhs.data,
                rhs.data,
                n,
                i,
                j,
                0,
                k,
                zero,
                v,
            ) implies may_step(lhs.data[cell(n, i, k)], rhs.data[cell(n, k, j)], v) by {
            lemma_unsigned_sum(lhs, rhs, zero, i, j, k, v);
        }
    }
}

/// Square matrices of one dimension, which is not zero, can be multiplied, and
/// no others. What is reported is the first thing that is wrong.
pub proof fn square_matrices_can_be_multiplied<T>(
    lhs: MatrixView<T>,
    rhs: MatrixView<T>,
    output: MatrixView<T>,
)
    requires
        lhs.wf(),
        rhs.wf(),
        output.wf(),
    ensures
        gemm_dimensions(lhs, rhs, output) <==> lhs.rows > 0 && lhs.rows == lhs.cols == rhs.rows
            == rhs.cols && lhs.rows == output.rows == output.cols,
        dimension_fault(lhs, rhs, output) is None <==> gemm_dimensions(lhs, rhs, output),
        dimension_fault(lhs, rhs, output) == Some(DimensionError::NotSquare) <==> lhs.rows
            != lhs.cols || rhs.rows != rhs.cols || output.rows != output.cols,
        lhs.rows == lhs.cols && rhs.rows == rhs.cols && output.rows == output.cols ==> {
            &&& dimension_fault(lhs, rhs, output) == Some(DimensionError::Empty) <==> lhs.rows == 0
            &&& dimension_fault(lhs, rhs, output) == Some(DimensionError::Inputs) <==> lhs.rows > 0
                && lhs.rows != rhs.rows
            &&& dimension_fault(lhs, rhs, output) == Some(DimensionError::OutputRows) <==> lhs.rows
                > 0 && lhs.rows == rhs.rows && output.rows != lhs.rows
        },
{
}

/// Every dimension error has its message.
pub proof fn dimension_errors_have_messages(error: DimensionError)
    ensures
        error == DimensionError::NotSquare ==> error.message_spec()
            == "this benchmark supports only square matrices"@,
        error == DimensionError::Empty ==> error.message_spec()
            == "matrix dimension must be greater than zero"@,
        error == DimensionError::Inputs ==> error.message_spec()
            == "incompatible GEMM input dimensions"@,
        error == DimensionError::OutputRows ==> error.message_spec()
            == "output row count is incorrect"@,
{
}

/// Serial kernels and `rayon-ikj` multiply matrices of every dimension,
/// `rayon-tiled` those whose groups of rows can be counted, and static kernels
/// those with a row per worker. Each is called by its name.
pub proof fn kernels_multiply_under_their_names<T: Element>(
    naive: NaiveGemm,
    ikj: IkjGemm,
    tiled: TiledGemm,
    rayon_ikj: RayonIkjGemm,
    rayon_tiled: RayonTiledGemm,
    static_ikj: StaticIkjGemm,
    static_tiled: StaticTiledGemm,
    n: nat,
)
    ensures
        GemmKernel::<T>::supports(&naive, n),
        GemmKernel::<T>::supports(&ikj, n),
        GemmKernel::<T>::supports(&tiled, n),
        GemmKernel::<T>::supports(&rayon_ikj, n),
        GemmKernel::<T>::supports(&rayon_tiled, n) <==> rayon_tiled.edge() * n <= usize::MAX,
        GemmKernel::<T>::supports(&static_ikj, n) <==> 0 < static_ikj.workers() <= n,
        GemmKernel::<T>::supports(&static_tiled, n) <==> 0 < static_tiled.workers() <= n,
        GemmKernel::<T>::label(&naive) == "naive-ijk"@,
        GemmKernel::<T>::label(&ikj) == "ikj"@,
        GemmKernel::<T>::label(&tiled) == "tiled"@,
        GemmKernel::<T>::label(&rayon_ikj) == "rayon-ikj"@,
        GemmKernel::<T>::label(&rayon_tiled) == "rayon-tiled"@,
        GemmKernel::<T>::label(&static_ikj) == "static-ikj"@,
        GemmKernel::<T>::label(&static_tiled) == "static-tiled"@,
{
}

/// A kernel in a pool multiplies what the kernel multiplies, under its name.
pub proof fn pools_change_no_kernel<T: Element, K: GemmKernel<T>>(pooled: Pooled<K>, n: nat)
    ensures
        GemmKernel::<T>::supports(&pooled, n) <==> pooled.inner().supports(n),
        GemmKernel::<T>::label(&pooled) == pooled.inner().label(),
{
}

/// What a call of [`GemmKernel::name`] returns is the name of the kernel.
pub proof fn kernels_name_themselves<T: Element>(
    naive: NaiveGemm,
    ikj: IkjGemm,
    tiled: TiledGemm,
    rayon_ikj: RayonIkjGemm,
    rayon_tiled: RayonTiledGemm,
    static_ikj: StaticIkjGemm,
    static_tiled: StaticTiledGemm,
    name: &'static str,
)
    ensures
        call_ensures(<NaiveGemm as GemmKernel<T>>::name, (&naive,), name) ==> name@
            == "naive-ijk"@,
        call_ensures(<IkjGemm as GemmKernel<T>>::name, (&ikj,), name) ==> name@ == "ikj"@,
        call_ensures(<TiledGemm as GemmKernel<T>>::name, (&tiled,), name) ==> name@ == "tiled"@,
        call_ensures(<RayonIkjGemm as GemmKernel<T>>::name, (&rayon_ikj,), name) ==> name@
            == "rayon-ikj"@,
        call_ensures(<RayonTiledGemm as GemmKernel<T>>::name, (&rayon_tiled,), name) ==> name@
            == "rayon-tiled"@,
        call_ensures(<StaticIkjGemm as GemmKernel<T>>::name, (&static_ikj,), name) ==> name@
            == "static-ikj"@,
        call_ensures(<StaticTiledGemm as GemmKernel<T>>::name, (&static_tiled,), name) ==> name@
            == "static-tiled"@,
{
}

/// A static kernel runs on the pool that was built for it, with the tiles that
/// it was asked for; where no pool was built, it reports that pool's error.
pub proof fn static_kernels_run_on_their_pool(
    built: Result<ThreadPool, ThreadPoolBuildError>,
    block_size: usize,
    ikj: Result<StaticIkjGemm, KernelError>,
    tiled: Result<StaticTiledGemm, KernelError>,
)
    requires
        StaticIkjGemm::made_of(built, ikj),
        StaticTiledGemm::made_of(built, block_size, tiled),
    ensures
        built matches Ok(pool) ==> {
            &&& ikj matches Ok(kernel) && kernel.workers() == pool_threads(pool)
            &&& tiled matches Ok(kernel) && kernel.workers() == pool_threads(pool)
                && kernel.edge() == block_size
        },
        built matches Err(error) ==> {
            &&& ikj matches Err(KernelError::PoolBuild(e)) && e == error
            &&& tiled matches Err(KernelError::PoolBuild(e)) && e == error
        },
{
}

/// A static kernel has the threads that it was asked for, up to Rayon's limit.
pub proof fn static_kernels_have_their_threads(
    threads: usize,
    block_size: usize,
    ikj: StaticIkjGemm,
    tiled: StaticTiledGemm,
    count: usize,
)
    requires
        call_ensures(StaticIkjGemm::new, (threads,), Ok(ikj)),
        call_ensures(StaticTiledGemm::new, (threads, block_size), Ok(tiled)),
        threads <= 255,
    ensures
        call_ensures(StaticIkjGemm::threads, (&ikj,), count) ==> count == threads,
        call_ensures(StaticTiledGemm::threads, (&tiled,), count) ==> count == threads,
        tiled.edge() == block_size,
{
    small_pools_are_granted(threads as nat);
}

/// What a call of [`assert_gemm_dimensions`] accepts are square matrices of one
/// dimension, which is not zero.
pub proof fn accepted_dimensions_agree<T>(
    lhs: Matrix<T>,
    rhs: Matrix<T>,
    output: Matrix<T>,
    result: Result<(), DimensionError>,
)
    requires
        call_ensures(assert_gemm_dimensions::<T>, (&lhs, &rhs, &output), result),
        lhs@.wf(),
        rhs@.wf(),
        output@.wf(),
    ensures
        result is Ok <==> lhs@.rows > 0 && lhs@.rows == lhs@.cols == rhs@.rows == rhs@.cols
            && lhs@.rows == output@.rows == output@.cols,
{
    square_matrices_can_be_multiplied(lhs@, rhs@, output@);
}

} // verus!
