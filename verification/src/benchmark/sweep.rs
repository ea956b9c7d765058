//! The configurations that a plan asks to measure.

use vstd::prelude::*;
use crate::cli::{BenchmarkPlan, KernelChoice, Precision};
use crate::element::cell;

verus! {

/// One configuration to measure.
#[derive(Clone, Copy, Debug, PartialEq, Eq, Structural)]
pub struct Configuration {
    pub precision: Precision,
    pub n: usize,
    pub kernel: KernelChoice,
    pub threads: usize,
}

/// Configurations that share one pair of inputs.
#[derive(Debug)]
pub struct Batch {
    pub precision: Precision,
    pub n: usize,
    pub configurations: Vec<Configuration>,
}

/// The configurations of one kernel: one per worker count where it uses
/// workers, and else one with a single thread.
pub open spec fn kernel_configurations(
    kernel: KernelChoice,
    threads: Seq<usize>,
    precision: Precision,
    n: usize,
) -> Seq<Configuration> {
    if kernel.parallel() {
        threads.map_values(|count: usize| Configuration { precision, n, kernel, threads: count })
    } else {
        seq![Configuration { precision, n, kernel, threads: 1 }]
    }
}

/// The configurations of all kernels, kernel by kernel.
pub open spec fn matrix_configurations(
    kernels: Seq<KernelChoice>,
    threads: Seq<usize>,
    precision: Precision,
    n: usize,
) -> Seq<Configuration>
    decreases kernels.len(),
{
    if kernels.len() == 0 {
        Seq::empty()
    } else {
        matrix_configurations(kernels.drop_last(), threads, precision, n) + kernel_configurations(
            kernels.last(),
            threads,
            precision,
            n,
        )
    }
}

/// The batch holds what a plan asks to measure at a precision and a dimension.
pub open spec fn is_batch(
    plan: BenchmarkPlan,
    precision: Precision,
    n: usize,
    batch: Batch,
) -> bool {
    &&& batch.precision == precision
    &&& batch.n == n
    &&& batch.configurations@ == matrix_configurations(
        plan.kernels@,
        plan.threads@,
        precision,
        n,
    )
}

/// The batches of a plan: precision by precision, and for each dimension by
/// dimension.
pub open spec fn is_sweep(plan: BenchmarkPlan, batches: Seq<Batch>) -> bool {
    &&& batches.len() == plan.precisions@.len() * plan.sizes@.len()
    &&& forall|p: int, s: int|
        0 <= p < plan.precisions@.len() && 0 <= s < plan.sizes@.len() ==> is_batch(
            plan,
            plan.precisions@[p],
            plan.sizes@[s],
            #[trigger] batches[cell(plan.sizes@.len() as int, p, s)],
        )
}

impl BenchmarkPlan {
    /// What is measured at a precision and a dimension, in order.
    pub fn configurations_on(&self, precision: Precision, n: usize) -> (configurations: Vec<
        Configuration,
    >)
        ensures
            configurations@ == matrix_configurations(self.kernels@, self.threads@, precision, n),
    {
        let mut configurations: Vec<Configuration> = Vec::new();
        let mut k: usize = 0;
        while k < self.kernels.len()
            invariant
                k <= self.kernels@.len(),
                configurations@ == matrix_configurations(
                    self.kernels@.take(k as int),
                    self.threads@,
                    precision,
                    n,
                ),
            decreases self.kernels@.len() - k,
        {
            let kernel = self.kernels[k];
            let ghost before = configurations@;
            if kernel.uses_workers() {
                let mut t: usize = 0;
                while t < self.threads.len()
                    invariant
                        t <= self.threads@.len(),
                        kernel.parallel(),
                        configurations@ == before + kernel_configurations(
                            kernel,
                            self.threads@.take(t as int),
                            precision,
                            n,
                        ),
                    decreases self.threads@.len() - t,
                {
                    configurations.push(
                        Configuration { precision, n, kernel, threads: self.threads[t] },
                    );
                    t += 1;
                    assert(configurations@ == before + kernel_configurations(
                        kernel,
                        self.threads@.take(t as int),
                        precision,
                        n,
                    ));
                }
                assert(self.threads@.take(t as int) == self.threads@);
            } else {
                configurations.push(Configuration { precision, n, kernel, threads: 1 });
            }
            assert(configurations@ == before + kernel_configurations(
                kernel,
                self.threads@,
                precision,
                n,
            ));
            assert(self.kernels@.take(k + 1).drop_last() == self.kernels@.take(k as int));
            k += 1;
        }
        assert(self.kernels@.take(k as int) == self.kernels@);
        configurations
    }

    /// Everything that is measured, in order.
    pub fn batches(&self) -> (batches: Vec<Batch>)
        ensures
            is_sweep(*self, batches@),
    {
        let mut batches: Vec<Batch> = Vec::new();
        let ghost width = self.sizes@.len() as int;
        let mut p: usize = 0;
        while p < self.precisions.len()
            invariant
                p <= self.precisions@.len(),
                width == self.sizes@.len(),
                batches@.len() == p * width,
                forall|q: int, s: int|
                    0 <= q < p && 0 <= s < width ==> is_batch(
                        *self,
                        self.precisions@[q],
                        self.sizes@[s],
                        #[trigger] batches@[cell(width, q, s)],
                    ),
            decreases self.precisions@.len() - p,
        {
            let precision = self.precisions[p];
            let mut s: usize = 0;
            while s < self.sizes.len()
                invariant
                    p < self.precisions@.len(),
                    s <= self.sizes@.len(),
                    width == self.sizes@.len(),
                    precision == self.precisions@[p as int],
                    batches@.len() == cell(width, p as int, s as int),
                    forall|q: int, r: int|
                        0 <= q <= p && 0 <= r < width && (q == p ==> r < s) ==> is_batch(
                            *self,
                            self.precisions@[q],
                            self.sizes@[r],
                            #[trigger] batches@[cell(width, q, r)],
                        ),
                decreases self.sizes@.len() - s,
            {
                let n = self.sizes[s];
                let ghost before = batches@;
                batches.push(
                    Batch { precision, n, configurations: self.configurations_on(precision, n) },
                );
                proof {
                    assert forall|q: int, r: int|
                        0 <= q <= p && 0 <= r < width && (q == p ==> r <= s) implies is_batch(
                        *self,
                        self.precisions@[q],
                        self.sizes@[r],
                        #[trigger] batches@[cell(width, q, r)],
                    ) by {
                        if q < p {
                            crate::matrix::lemma_cell_bounds(p as int, width, q, r);
                            assert(batches@[cell(width, q, r)] == before[cell(width, q, r)]);
                        } else if r < s {
                            assert(0 <= p * width) by (nonlinear_arith)
                                requires
                                    0 <= p,
                                    0 <= width,
                            ;
                            assert(batches@[cell(width, q, r)] == before[cell(width, q, r)]);
                        }
                    }
                }
                s += 1;
            }
            assert((p + 1) * width == p * width + width) by (nonlinear_arith);
            p += 1;
        }
        batches
    }
}

} // verus!
