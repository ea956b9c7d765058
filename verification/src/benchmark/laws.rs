//! What holds of every plan that is accepted, and of every sweep.

use vstd::prelude::*;
use vstd::arithmetic::div_mod::{lemma_fundamental_div_mod, lemma_fundamental_div_mod_converse};
use vstd::arithmetic::power2::{
    lemma2_to64, lemma_pow2_pos, lemma_pow2_strictly_increases, lemma_pow2_unfold, pow2,
};
use crate::cli::{
    configurations_per_matrix, default_sizes, doubling, largest,
    largest_is_the_maximum, smallest, smallest_is_the_minimum, BenchmarkPlan, Cli, Host,
    KernelChoice, Precision,
};
use crate::element::{cell, Element};
use crate::kernels::pool::granted_threads;
use crate::kernels::{GemmKernel, KernelError};
use crate::matrix::{lemma_cell_bounds, lemma_cell_of, Matrix};
use super::inputs::{
    benchmark_inputs, lhs_fraction, lhs_steps_evenly, rhs_fraction, rhs_steps_evenly,
};
use super::kernel::CpuKernel;
use super::runs::{add_run, measured_time, timed_runs, Run, RunSchedule};
use super::sweep::{
    is_batch, is_sweep, kernel_configurations, matrix_configurations, Batch, Configuration,
};

verus! {

proof fn lemma_doubling(from: int, power: nat, max: usize)
    requires
        from == pow2(power),
    ensures
        forall|i: int|
            0 <= i < doubling(from, max).len() ==> #[trigger] doubling(from, max)[i] == pow2(
                (power + i) as nat,
            ) && doubling(from, max)[i] <= max,
        max < pow2(power + doubling(from, max).len()),
    decreases
            if from <= max {
                max - from + 1
            } else {
                0
            },
{
    lemma_pow2_pos(power);
    if from <= max {
        lemma_pow2_unfold(power + 1);
        lemma_doubling(2 * from, power + 1, max);
        let counts = doubling(from, max);
        let rest = doubling(2 * from, max);
        assert(counts == seq![from as usize] + rest);
        assert forall|i: int| 0 <= i < counts.len() implies #[trigger] counts[i] == pow2(
            (power + i) as nat,
        ) && counts[i] <= max by {
            if i > 0 {
                assert(counts[i] == rest[i - 1]);
            }
        }
    }
}

/// The default worker counts are exactly the powers of two up to the number of
/// CPUs, from one on in ascending order.
pub proof fn default_thread_counts_are_powers_of_two(max: usize)
    requires
        0 < max,
    ensures
        ({
            let counts = doubling(1, max);
            &&& counts.len() > 0
            &&& counts[0] == 1
            &&& forall|i: int|
                0 <= i < counts.len() ==> #[trigger] counts[i] == pow2(i as nat) && counts[i] <= max
            &&& forall|i: int, j: int|
                0 <= i < j < counts.len() ==> #[trigger] counts[i] < #[trigger] counts[j]
            &&& max < pow2(counts.len())
            &&& forall|power: nat| #[trigger]
                pow2(power) <= max ==> counts.contains(pow2(power) as usize)
        }),
{
    lemma2_to64();
    lemma_doubling(1, 0, max);
    let counts = doubling(1, max);
    assert forall|i: int, j: int| 0 <= i < j < counts.len() implies #[trigger] counts[i]
        < #[trigger] counts[j] by {
        lemma_pow2_strictly_increases(i as nat, j as nat);
    }
    assert forall|power: nat| #[trigger] pow2(power) <= max implies counts.contains(
        pow2(power) as usize,
    ) by {
        if power > counts.len() {
            lemma_pow2_strictly_increases(counts.len(), power);
        }
        assert(counts[power as int] == pow2(power));
    }
}

/// A plan whose runs can all be carried out.
pub open spec fn measurable(plan: BenchmarkPlan) -> bool {
    &&& plan.sizes@.len() > 0 && !plan.sizes@.contains(0)
    &&& plan.threads@.len() > 0 && !plan.threads@.contains(0)
    &&& plan.kernels@.len() > 0
    &&& plan.precisions@.len() > 0
    &&& plan.repetitions > 0
    &&& plan.block_size > 0
    &&& forall|k: int, t: int, s: int|
        0 <= k < plan.kernels@.len() && 0 <= t < plan.threads@.len() && 0 <= s
            < plan.sizes@.len() && #[trigger] plan.kernels@[k].fixed_rows()
            ==> #[trigger] plan.threads@[t] <= #[trigger] plan.sizes@[s]
    &&& plan.kernels@.contains(KernelChoice::Mps) ==> !plan.precisions@.contains(Precision::F64)
}

/// Options that are accepted make a plan that can be carried out: there is
/// something to measure, no number is zero, every worker of a static kernel
/// gets a row of every matrix, and nothing is asked of Metal that it does not
/// support, nor anything where there is no Metal.
pub proof fn accepted_plans_are_measurable(cli: Cli, host: Host, plan: BenchmarkPlan)
    requires
        cli.plan_fault(host) is None,
        cli.resolves_to(host, plan),
        cli.threads@.len() == 0 ==> 0 < host.parallelism,
        !host.metal ==> !cli.kernel@.contains(KernelChoice::Mps),
    ensures
        measurable(plan),
        !host.metal ==> !plan.kernels@.contains(KernelChoice::Mps),
{
    if cli.sizes@.len() == 0 {
        assert(!default_sizes().contains(0));
    }
    if cli.threads@.len() == 0 {
        default_thread_counts_are_powers_of_two(host.parallelism);
        let counts = doubling(1, host.parallelism);
        assert forall|i: int| 0 <= i < counts.len() implies #[trigger] counts[i] > 0 by {
            if i > 0 {
                assert(counts[0] < counts[i]);
            }
        }
    }
    largest_is_the_maximum(plan.threads@, 1);
    smallest_is_the_minimum(plan.sizes@, usize::MAX);
    assert forall|k: int, t: int, s: int|
        0 <= k < plan.kernels@.len() && 0 <= t < plan.threads@.len() && 0 <= s < plan.sizes@.len()
            && #[trigger] plan.kernels@[k].fixed_rows() implies #[trigger] plan.threads@[t]
        <= #[trigger] plan.sizes@[s] by {
        assert(plan.kernels@.contains(plan.kernels@[k]));
        assert(plan.threads@[t] <= largest(plan.threads@, 1));
        assert(smallest(plan.sizes@, usize::MAX) <= plan.sizes@[s]);
    }
}

/// Every kernel has as many configurations as it is counted with.
proof fn lemma_configurations_counted(
    kernels: Seq<KernelChoice>,
    threads: Seq<usize>,
    precision: Precision,
    n: usize,
)
    ensures
        matrix_configurations(kernels, threads, precision, n).len() == configurations_per_matrix(
            kernels,
            threads.len(),
        ),
    decreases kernels.len(),
{
    if kernels.len() > 0 {
        lemma_configurations_counted(kernels.drop_last(), threads, precision, n);
    }
}

/// The number of configurations in all the batches.
pub open spec fn measured(batches: Seq<Batch>) -> nat
    decreases batches.len(),
{
    if batches.len() == 0 {
        0
    } else {
        measured(batches.drop_last()) + batches.last().configurations@.len()
    }
}

proof fn lemma_measured(batches: Seq<Batch>, each: nat)
    requires
        forall|i: int|
            0 <= i < batches.len() ==> (#[trigger] batches[i]).configurations@.len() == each,
    ensures
        measured(batches) == batches.len() * each,
    decreases batches.len(),
{
    if batches.len() > 0 {
        let rest = batches.drop_last();
        assert forall|i: int| 0 <= i < rest.len() implies (
        #[trigger] rest[i]).configurations@.len() == each by {
            assert(rest[i] == batches[i]);
        }
        lemma_measured(rest, each);
        assert(batches.len() * each == (batches.len() - 1) * each + each) by (nonlinear_arith);
    } else {
        assert(0 * each == 0) by (nonlinear_arith);
    }
}

/// The number that is announced is the number that is measured.
pub proof fn sweeps_measure_the_announced_total(plan: BenchmarkPlan, batches: Seq<Batch>)
    requires
        is_sweep(plan, batches),
    ensures
        measured(batches) == plan.total(),
{
    let width = plan.sizes@.len() as int;
    assert forall|i: int| 0 <= i < batches.len() implies (
    #[trigger] batches[i]).configurations@.len() == plan.per_matrix() by {
        if width == 0 {
            assert(plan.precisions@.len() * 0 == 0) by (nonlinear_arith);
        } else {
            lemma_cell_of(plan.precisions@.len() as int, width, i);
            let precision = plan.precisions@[i / width];
            let n = plan.sizes@[i % width];
            assert(is_batch(plan, precision, n, batches[cell(width, i / width, i % width)]));
            lemma_configurations_counted(plan.kernels@, plan.threads@, precision, n);
        }
    }
    lemma_measured(batches, plan.per_matrix());
}

/// The batches are those of the plan, in its order: precision by precision, and
/// for each precision every size, as often and in the order that the plan says.
pub proof fn batches_follow_the_plan(plan: BenchmarkPlan, batches: Vec<Batch>, p: int)
    requires
        call_ensures(BenchmarkPlan::batches, (&plan,), batches),
        0 <= p < plan.precisions@.len(),
    ensures
        batches@.len() == plan.precisions@.len() * plan.sizes@.len(),
        0 <= p * plan.sizes@.len() <= p * plan.sizes@.len() + plan.sizes@.len() <= batches@.len(),
        batches@.subrange(
            p * plan.sizes@.len(),
            p * plan.sizes@.len() + plan.sizes@.len(),
        ).map_values(|batch: Batch| batch.n) == plan.sizes@,
        forall|s: int|
            0 <= s < plan.sizes@.len() ==> {
                let batch = #[trigger] batches@[p * plan.sizes@.len() + s];
                &&& batch.precision == plan.precisions@[p]
                &&& batch.n == plan.sizes@[s]
                &&& batch.configurations@ == matrix_configurations(
                    plan.kernels@,
                    plan.threads@,
                    plan.precisions@[p],
                    plan.sizes@[s],
                )
            },
{
    let width = plan.sizes@.len() as int;
    assert(0 <= p * width <= p * width + width <= plan.precisions@.len() * width) by (
        nonlinear_arith)
        requires
            0 <= p < plan.precisions@.len(),
            0 <= width,
    ;
    assert forall|s: int| 0 <= s < width implies {
        let batch = #[trigger] batches@[p * plan.sizes@.len() + s];
        &&& batch.precision == plan.precisions@[p]
        &&& batch.n == plan.sizes@[s]
        &&& batch.configurations@ == matrix_configurations(
            plan.kernels@,
            plan.threads@,
            plan.precisions@[p],
            plan.sizes@[s],
        )
    } by {
        assert(is_batch(
            plan,
            plan.precisions@[p],
            plan.sizes@[s],
            batches@[cell(width, p, s)],
        ));
    }
    let sizes = batches@.subrange(p * width, p * width + width).map_values(|batch: Batch| batch.n);
    assert forall|s: int| 0 <= s < width implies sizes[s] == plan.sizes@[s] by {
        assert(batches@[p * plan.sizes@.len() + s].n == plan.sizes@[s]);
    }
    assert(sizes =~= plan.sizes@);
}

/// A configuration is in some batch if and only if the plan asks for it: for its
/// precision, its size, its kernel and its number of threads, which is one for
/// the kernels that use no workers.
pub proof fn batches_hold_what_the_plan_asks_for(
    plan: BenchmarkPlan,
    batches: Vec<Batch>,
    configuration: Configuration,
)
    requires
        call_ensures(BenchmarkPlan::batches, (&plan,), batches),
    ensures
        (exists|b: int|
            0 <= b < batches@.len() && (#[trigger] batches@[b]).configurations@.contains(
                configuration,
            )) <==> {
            &&& plan.precisions@.contains(configuration.precision)
            &&& plan.sizes@.contains(configuration.n)
            &&& plan.kernels@.contains(configuration.kernel)
            &&& if configuration.kernel == KernelChoice::RayonIkj || configuration.kernel
                == KernelChoice::RayonTiled || configuration.kernel == KernelChoice::StaticIkj
                || configuration.kernel == KernelChoice::StaticTiled {
                plan.threads@.contains(configuration.threads)
            } else {
                configuration.threads == 1
            }
        },
{
    let width = plan.sizes@.len() as int;
    if exists|b: int|
        0 <= b < batches@.len() && (#[trigger] batches@[b]).configurations@.contains(
            configuration,
        ) {
        let b = choose|b: int|
            0 <= b < batches@.len() && (#[trigger] batches@[b]).configurations@.contains(
                configuration,
            );
        if width == 0 {
            assert(plan.precisions@.len() * 0 == 0) by (nonlinear_arith);
        }
        lemma_cell_of(plan.precisions@.len() as int, width, b);
        let precision = plan.precisions@[b / width];
        let n = plan.sizes@[b % width];
        assert(is_batch(plan, precision, n, batches@[cell(width, b / width, b % width)]));
        sweeps_measure_what_is_asked_for(
            plan.kernels@,
            plan.threads@,
            precision,
            n,
            configuration,
        );
    }
    if plan.precisions@.contains(configuration.precision) && plan.sizes@.contains(configuration.n) {
        let p = plan.precisions@.index_of(configuration.precision);
        let s = plan.sizes@.index_of(configuration.n);
        sweeps_measure_what_is_asked_for(
            plan.kernels@,
            plan.threads@,
            configuration.precision,
            configuration.n,
            configuration,
        );
        lemma_cell_bounds(plan.precisions@.len() as int, width, p, s);
        assert(is_batch(
            plan,
            plan.precisions@[p],
            plan.sizes@[s],
            batches@[cell(width, p, s)],
        ));
        let b = cell(width, p, s);
        if batches@[b].configurations@.contains(configuration) {
            assert(0 <= b < batches@.len());
        }
    }
}

/// The kernels are measured one after the other: those that use workers once
/// per worker count, in the order of the counts, the others once with one
/// thread.
pub proof fn kernels_are_measured_one_by_one(
    kernels: Seq<KernelChoice>,
    kernel: KernelChoice,
    threads: Seq<usize>,
    precision: Precision,
    n: usize,
)
    ensures
        matrix_configurations(Seq::empty(), threads, precision, n).len() == 0,
        kernel == KernelChoice::RayonIkj || kernel == KernelChoice::RayonTiled || kernel
            == KernelChoice::StaticIkj || kernel == KernelChoice::StaticTiled
            ==> matrix_configurations(kernels.push(kernel), threads, precision, n)
            == matrix_configurations(kernels, threads, precision, n) + Seq::new(
            threads.len(),
            |t: int| Configuration { precision, n, kernel, threads: threads[t] },
        ),
        kernel == KernelChoice::Naive || kernel == KernelChoice::Ikj || kernel
            == KernelChoice::Tiled || kernel == KernelChoice::Mps ==> matrix_configurations(
            kernels.push(kernel),
            threads,
            precision,
            n,
        ) == matrix_configurations(kernels, threads, precision, n).push(
            Configuration { precision, n, kernel, threads: 1 },
        ),
{
    assert(kernels.push(kernel).drop_last() == kernels);
    if kernel.parallel() {
        assert(kernel_configurations(kernel, threads, precision, n) == Seq::new(
            threads.len(),
            |t: int| Configuration { precision, n, kernel, threads: threads[t] },
        ));
    }
}

/// Every matrix is measured with every kernel: once per worker count with those
/// that use workers, and once with the others.
pub proof fn kernels_are_counted_one_by_one(
    kernels: Seq<KernelChoice>,
    kernel: KernelChoice,
    threads: nat,
)
    ensures
        configurations_per_matrix(Seq::empty(), threads) == 0,
        configurations_per_matrix(kernels.push(kernel), threads) == configurations_per_matrix(
            kernels,
            threads,
        ) + if kernel == KernelChoice::RayonIkj || kernel == KernelChoice::RayonTiled || kernel
            == KernelChoice::StaticIkj || kernel == KernelChoice::StaticTiled {
            threads
        } else {
            1
        },
{
    assert(kernels.push(kernel).drop_last() == kernels);
}

/// The number that is announced is that of the kernels' configurations, for
/// every size at every precision.
pub proof fn totals_cover_every_size_at_every_precision(plan: BenchmarkPlan, total: usize)
    requires
        call_ensures(BenchmarkPlan::total_configurations, (&plan,), total),
    ensures
        total == plan.precisions@.len() * plan.sizes@.len() * configurations_per_matrix(
            plan.kernels@,
            plan.threads@.len(),
        ),
{
}

/// What is announced is as many configurations as the batches hold.
pub proof fn batches_hold_the_announced_total(
    plan: BenchmarkPlan,
    batches: Vec<Batch>,
    total: usize,
)
    requires
        call_ensures(BenchmarkPlan::batches, (&plan,), batches),
        call_ensures(BenchmarkPlan::total_configurations, (&plan,), total),
    ensures
        total == batches@.map_values(
            |batch: Batch| batch.configurations@.len(),
        ).fold_left(0nat, |sum: nat, count: nat| sum + count),
{
    sweeps_measure_the_announced_total(plan, batches@);
    lemma_measured_sum(batches@);
}

proof fn lemma_measured_sum(batches: Seq<Batch>)
    ensures
        measured(batches) == batches.map_values(
            |batch: Batch| batch.configurations@.len(),
        ).fold_left(0nat, |sum: nat, count: nat| sum + count),
    decreases batches.len(),
{
    let sizes = batches.map_values(|batch: Batch| batch.configurations@.len());
    if batches.len() > 0 {
        lemma_measured_sum(batches.drop_last());
        assert(sizes.drop_last() =~= batches.drop_last().map_values(
            |batch: Batch| batch.configurations@.len(),
        ));
    }
}

/// A plan that can be carried out measures something.
pub proof fn measurable_plans_are_not_empty(plan: BenchmarkPlan)
    requires
        measurable(plan),
    ensures
        plan.total() > 0,
{
    let kernels = plan.kernels@;
    assert(configurations_per_matrix(kernels, plan.threads@.len()) > 0);
    let batches = plan.precisions@.len() * plan.sizes@.len();
    assert(batches > 0) by (nonlinear_arith)
        requires
            batches == plan.precisions@.len() * plan.sizes@.len(),
            plan.precisions@.len() > 0,
            plan.sizes@.len() > 0,
    ;
    assert(batches * plan.per_matrix() > 0) by (nonlinear_arith)
        requires
            batches > 0,
            plan.per_matrix() > 0,
    ;
}

/// A configuration is measured if and only if it is asked for: its kernel is
/// one of the plan's, with each of the worker counts where it uses workers, and
/// with a single thread where it does not.
pub proof fn sweeps_measure_what_is_asked_for(
    kernels: Seq<KernelChoice>,
    threads: Seq<usize>,
    precision: Precision,
    n: usize,
    configuration: Configuration,
)
    ensures
        matrix_configurations(kernels, threads, precision, n).contains(configuration) <==> {
            &&& configuration.precision == precision
            &&& configuration.n == n
            &&& kernels.contains(configuration.kernel)
            &&& if configuration.kernel.parallel() {
                threads.contains(configuration.threads)
            } else {
                configuration.threads == 1
            }
        },
    decreases kernels.len(),
{
    if kernels.len() > 0 {
        let rest = kernels.drop_last();
        sweeps_measure_what_is_asked_for(rest, threads, precision, n, configuration);
        let earlier = matrix_configurations(rest, threads, precision, n);
        let last = kernel_configurations(kernels.last(), threads, precision, n);
        let all = matrix_configurations(kernels, threads, precision, n);
        assert(all == earlier + last);
        if all.contains(configuration) {
            let i = all.index_of(configuration);
            if i < earlier.len() {
                assert(earlier[i] == configuration);
                let k = rest.index_of(configuration.kernel);
                assert(kernels[k] == configuration.kernel);
            } else {
                assert(last[i - earlier.len()] == configuration);
                assert(kernels[kernels.len() - 1] == configuration.kernel);
            }
        }
        if earlier.contains(configuration) {
            let i = earlier.index_of(configuration);
            assert(all[i] == configuration);
        }
        if configuration.precision == precision && configuration.n == n && configuration.kernel
            == kernels.last() {
            if configuration.kernel.parallel() {
                if threads.contains(configuration.threads) {
                    let t = threads.index_of(configuration.threads);
                    assert(last[t] == configuration);
                    assert(all[earlier.len() + t] == configuration);
                }
            } else if configuration.threads == 1 {
                assert(last[0] == configuration);
                assert(all[earlier.len() as int] == configuration);
            }
        }
        if kernels.contains(configuration.kernel) && configuration.kernel != kernels.last() {
            let k = kernels.index_of(configuration.kernel);
            assert(rest[k] == configuration.kernel);
        }
    }
}

/// The kernel that is built for a configuration of a plan that can be carried
/// out multiplies the matrices of that configuration, under the label of the
/// choice. Only a group of `rayon-tiled` can be too large to be addressed.
pub proof fn built_kernels_fit_their_configuration<T: Element>(
    plan: BenchmarkPlan,
    configuration: Configuration,
    kernel: CpuKernel,
)
    requires
        measurable(plan),
        plan.sizes@.contains(configuration.n),
        matrix_configurations(
            plan.kernels@,
            plan.threads@,
            configuration.precision,
            configuration.n,
        ).contains(configuration),
        kernel.built_for(configuration.kernel, configuration.threads, plan.block_size),
        configuration.kernel == KernelChoice::RayonTiled ==> plan.block_size * configuration.n
            <= usize::MAX,
    ensures
        GemmKernel::<T>::supports(&kernel, configuration.n as nat),
        GemmKernel::<T>::label(&kernel) == configuration.kernel.label_spec(),
{
    sweeps_measure_what_is_asked_for(
        plan.kernels@,
        plan.threads@,
        configuration.precision,
        configuration.n,
        configuration,
    );
    let k = plan.kernels@.index_of(configuration.kernel);
    let s = plan.sizes@.index_of(configuration.n);
    if configuration.kernel.fixed_rows() {
        let t = plan.threads@.index_of(configuration.threads);
        assert(plan.kernels@[k].fixed_rows());
        assert(plan.threads@[t] <= plan.sizes@[s]);
        assert(plan.threads@.contains(plan.threads@[t]));
    }
}

/// Whatever a plan that can be carried out asks of Metal has a data type.
pub proof fn metal_is_asked_for_what_it_supports(plan: BenchmarkPlan, precision: Precision)
    requires
        measurable(plan),
        plan.kernels@.contains(KernelChoice::Mps),
        plan.precisions@.contains(precision),
    ensures
        precision.mps_data_type_spec() is Some,
{
}

/// Different kernels are reported under different names.
pub proof fn kernel_labels_are_distinct(one: KernelChoice, other: KernelChoice)
    requires
        one.label_spec() == other.label_spec(),
    ensures
        one == other,
{
    reveal_strlit("naive-ijk");
    reveal_strlit("ikj");
    reveal_strlit("tiled");
    reveal_strlit("rayon-ikj");
    reveal_strlit("rayon-tiled");
    reveal_strlit("static-ikj");
    reveal_strlit("static-tiled");
    reveal_strlit("mps");
    assert("naive-ijk"@[0] == 'n' && "ikj"@[0] == 'i' && "tiled"@[0] == 't' && "mps"@[0] == 'm');
    assert("rayon-ikj"@[0] == 'r' && "rayon-tiled"@[0] == 'r');
    assert("static-ikj"@[0] == 's' && "static-tiled"@[0] == 's');
    assert("rayon-ikj"@.len() == 9 && "rayon-tiled"@.len() == 11);
    assert("static-ikj"@.len() == 10 && "static-tiled"@.len() == 12);
}

/// Different precisions are reported under different names.
pub proof fn precision_labels_are_distinct(one: Precision, other: Precision)
    requires
        one.label_spec() == other.label_spec(),
    ensures
        one == other,
{
    reveal_strlit("f16");
    reveal_strlit("f32");
    reveal_strlit("f64");
    assert("f16"@[1] == '1' && "f32"@[1] == '3' && "f64"@[1] == '6');
}

/// A configuration is run once more than it is measured, and the run that does
/// not count comes first.
pub proof fn the_first_run_does_not_count(repetitions: nat)
    ensures
        ({
            let runs = seq![Run::WarmUp] + timed_runs(repetitions);
            &&& runs.len() == repetitions + 1
            &&& runs[0] == Run::WarmUp
            &&& forall|i: int| 0 < i < runs.len() ==> #[trigger] runs[i] == Run::Timed
        }),
{
}

proof fn lemma_timed_runs_count(
    times: Seq<nat>,
    repetitions: nat,
    plus: spec_fn(nat, nat) -> nat,
)
    requires
        times.len() > repetitions,
        forall|x: nat, y: nat| #[trigger] plus(x, y) == x + y,
    ensures
        measured_time(seq![Run::WarmUp] + timed_runs(repetitions), times) == times.subrange(
            1,
            1 + repetitions as int,
        ).fold_left(0nat, plus),
    decreases repetitions,
{
    let runs = seq![Run::WarmUp] + timed_runs(repetitions);
    let counting = times.subrange(1, 1 + repetitions as int);
    if repetitions > 0 {
        let fewer = (repetitions - 1) as nat;
        lemma_timed_runs_count(times, fewer, plus);
        assert(runs.drop_last() == seq![Run::WarmUp] + timed_runs(fewer));
        assert(runs.last() == Run::Timed);
        assert(counting.drop_last() == times.subrange(1, 1 + fewer as int));
        assert(counting.last() == times[runs.len() - 1]);
    } else {
        assert(runs.last() == Run::WarmUp);
        assert(measured_time(runs.drop_last(), times) == 0);
    }
}

/// The sum of some times.
pub open spec fn total_of(times: Seq<nat>) -> nat
    decreases times.len(),
{
    if times.len() == 0 {
        0
    } else {
        total_of(times.drop_last()) + times.last()
    }
}

proof fn lemma_total_of(times: Seq<nat>, plus: spec_fn(nat, nat) -> nat)
    requires
        forall|x: nat, y: nat| #[trigger] plus(x, y) == x + y,
    ensures
        total_of(times) == times.fold_left(0nat, plus),
    decreases times.len(),
{
    if times.len() > 0 {
        lemma_total_of(times.drop_last(), plus);
    }
}

/// The measured time of a configuration is the sum of what its runs took, but
/// for the first.
pub proof fn the_first_run_is_not_measured(times: Seq<nat>)
    requires
        times.len() > 0,
    ensures
        measured_time(seq![Run::WarmUp] + timed_runs((times.len() - 1) as nat), times)
            == total_of(times.drop_first()),
        total_of(times.drop_first()) == times.drop_first().fold_left(
            0nat,
            |sum: nat, time: nat| sum + time,
        ),
{
    lemma_total_of(times.drop_first(), |sum: nat, time: nat| sum + time);
    lemma_timed_runs_count(
        times,
        (times.len() - 1) as nat,
        |sum: nat, time: nat| sum + time,
    );
    assert(times.subrange(1, times.len() as int) == times.drop_first());
}

/// A schedule that [`RunSchedule::new`] returns holds one warm-up, and then as
/// many timed runs as were asked for.
pub proof fn schedules_hold_what_was_asked_for(repetitions: usize, schedule: RunSchedule)
    requires
        call_ensures(RunSchedule::new, (repetitions,), schedule),
    ensures
        schedule@.len() == repetitions + 1,
        schedule@[0] == Run::WarmUp,
        forall|i: int| 0 < i < schedule@.len() ==> #[trigger] schedule@[i] == Run::Timed,
{
}

/// A call of [`add_run`] adds the time of a timed run, and of no other.
pub proof fn timed_runs_are_added(total: u128, run: Run, elapsed: u128, sum: u128)
    requires
        call_ensures(add_run, (total, run, elapsed), sum),
    ensures
        run == Run::Timed ==> sum == total + elapsed,
        run == Run::WarmUp ==> sum == total,
{
}

/// There is one remainder.
proof fn lemma_remainder_unique(x: int, m: int, a: int, b: int)
    requires
        0 <= a < m,
        0 <= b < m,
        (x - a) % m == 0,
        (x - b) % m == 0,
    ensures
        a == b,
{
    let q = (x - a) / m;
    let r = (x - b) / m;
    lemma_fundamental_div_mod(x - a, m);
    lemma_fundamental_div_mod(x - b, m);
    assert(m * q == q * m && m * r == r * m) by (nonlinear_arith);
    lemma_fundamental_div_mod_converse(x, m, q, a);
    lemma_fundamental_div_mod_converse(x, m, r, b);
}

/// The inputs that [`benchmark_inputs`] returns are made, at every position, of
/// fractions whose numerators go by the row and the column: 17 and 13 modulo 23
/// on the left, 7 and 19 modulo 29 on the right.
pub proof fn inputs_go_by_row_and_column<T, F: Copy + Fn(usize, usize) -> T>(
    n: usize,
    fraction: F,
    inputs: (Matrix<T>, Matrix<T>),
    row: int,
    col: int,
    left: usize,
    right: usize,
)
    requires
        call_ensures(benchmark_inputs::<T, F>, (n, fraction), inputs),
        0 <= row < n,
        0 <= col < n,
        left < 23,
        (17 * row + 13 * col - left) % 23 == 0,
        right < 29,
        (7 * row + 19 * col - right) % 29 == 0,
    ensures
        inputs.0@.rows == n && inputs.0@.cols == n && inputs.0@.data.len() == n * n,
        inputs.1@.rows == n && inputs.1@.cols == n && inputs.1@.data.len() == n * n,
        fraction.ensures((left, 23usize), inputs.0@.data[row * n + col]),
        fraction.ensures((right, 29usize), inputs.1@.data[row * n + col]),
{
    assert(lhs_fraction(row, col) == (left, 23usize)) by {
        lhs_steps_evenly(row, col);
        lemma_remainder_unique(
            17 * row + 13 * col,
            23,
            lhs_fraction(row, col).0 as int,
            left as int,
        );
    }
    assert(rhs_fraction(row, col) == (right, 29usize)) by {
        rhs_steps_evenly(row, col);
        lemma_remainder_unique(
            7 * row + 19 * col,
            29,
            rhs_fraction(row, col).0 as int,
            right as int,
        );
    }
    assert(inputs.0@.at(row, col) == inputs.0@.data[row * n + col]);
    assert(inputs.1@.at(row, col) == inputs.1@.data[row * n + col]);
}

/// A kernel is built as it was asked for: of the type that the choice names, on
/// a pool of the granted threads where it uses workers, with tiles of the given
/// edge length where it works by tiles.
pub proof fn kernels_are_built_as_asked(
    kernel: CpuKernel,
    choice: KernelChoice,
    threads: usize,
    block_size: usize,
)
    requires
        kernel.built_for(choice, threads, block_size),
    ensures
        choice == KernelChoice::Naive ==> kernel is Naive,
        choice == KernelChoice::Ikj ==> kernel is Ikj,
        choice == KernelChoice::Tiled ==> (kernel matches CpuKernel::Tiled(k) && k.edge()
            == block_size),
        choice == KernelChoice::RayonIkj ==> (kernel matches CpuKernel::RayonIkj(k) && k.workers()
            == granted_threads(threads as nat)),
        choice == KernelChoice::RayonTiled ==> (kernel matches CpuKernel::RayonTiled(k)
            && k.workers() == granted_threads(threads as nat) && k.inner().edge() == block_size),
        choice == KernelChoice::StaticIkj ==> (kernel matches CpuKernel::StaticIkj(k) && k.workers()
            == granted_threads(threads as nat)),
        choice == KernelChoice::StaticTiled ==> (kernel matches CpuKernel::StaticTiled(k)
            && k.workers() == granted_threads(threads as nat) && k.edge() == block_size),
        choice != KernelChoice::Mps,
{
}

/// What [`KernelChoice::build`] returns is as it was asked for, and there is
/// nothing for Metal only. Serial kernels are always built.
pub proof fn builds_follow_the_choice(
    choice: KernelChoice,
    threads: usize,
    block_size: usize,
    built: Result<Option<CpuKernel>, KernelError>,
)
    requires
        call_ensures(KernelChoice::build, (choice, threads, block_size), built),
    ensures
        choice == KernelChoice::Mps <==> built matches Ok(None),
        choice == KernelChoice::Naive ==> built matches Ok(Some(CpuKernel::Naive(_))),
        choice == KernelChoice::Ikj ==> built matches Ok(Some(CpuKernel::Ikj(_))),
        choice == KernelChoice::Tiled ==> (built matches Ok(Some(CpuKernel::Tiled(k))) && k.edge()
            == block_size),
        built matches Ok(Some(kernel)) ==> {
            &&& choice == KernelChoice::RayonIkj ==> kernel is RayonIkj
            &&& choice == KernelChoice::RayonTiled ==> kernel is RayonTiled
            &&& choice == KernelChoice::StaticIkj ==> kernel is StaticIkj
            &&& choice == KernelChoice::StaticTiled ==> kernel is StaticTiled
        },
{
    if let Ok(Some(kernel)) = built {
        kernels_are_built_as_asked(kernel, choice, threads, block_size);
    }
}

/// A kernel multiplies what the kernel of its type does, under the name of that
/// type, whichever choice it was built for.
pub proof fn built_kernels_are_reported_by_name<T: Element>(kernel: CpuKernel, n: nat)
    ensures
        kernel is Naive ==> GemmKernel::<T>::label(&kernel) == "naive-ijk"@,
        kernel is Ikj ==> GemmKernel::<T>::label(&kernel) == "ikj"@,
        kernel is Tiled ==> GemmKernel::<T>::label(&kernel) == "tiled"@,
        kernel is RayonIkj ==> GemmKernel::<T>::label(&kernel) == "rayon-ikj"@,
        kernel is RayonTiled ==> GemmKernel::<T>::label(&kernel) == "rayon-tiled"@,
        kernel is StaticIkj ==> GemmKernel::<T>::label(&kernel) == "static-ikj"@,
        kernel is StaticTiled ==> GemmKernel::<T>::label(&kernel) == "static-tiled"@,
        kernel is Naive || kernel is Ikj || kernel is Tiled || kernel is RayonIkj ==> GemmKernel::<
            T,
        >::supports(&kernel, n),
        kernel matches CpuKernel::RayonTiled(k) ==> (GemmKernel::<T>::supports(&kernel, n)
            <==> k.inner().edge() * n <= usize::MAX),
        kernel matches CpuKernel::StaticIkj(k) ==> (GemmKernel::<T>::supports(&kernel, n) <==> 0
            < k.workers() <= n),
        kernel matches CpuKernel::StaticTiled(k) ==> (GemmKernel::<T>::supports(&kernel, n) <==> 0
            < k.workers() <= n),
        kernel.fits(n) <==> GemmKernel::<T>::supports(&kernel, n),
{
}

/// What [`BenchmarkPlan::configurations_on`] returns is what the plan asks for
/// at the precision and the size.
pub proof fn configurations_are_those_asked_for(
    plan: BenchmarkPlan,
    precision: Precision,
    n: usize,
    configurations: Vec<Configuration>,
    configuration: Configuration,
)
    requires
        call_ensures(BenchmarkPlan::configurations_on, (&plan, precision, n), configurations),
    ensures
        configurations@.contains(configuration) <==> {
            &&& configuration.precision == precision
            &&& configuration.n == n
            &&& plan.kernels@.contains(configuration.kernel)
            &&& if configuration.kernel == KernelChoice::RayonIkj || configuration.kernel
                == KernelChoice::RayonTiled || configuration.kernel == KernelChoice::StaticIkj
                || configuration.kernel == KernelChoice::StaticTiled {
                plan.threads@.contains(configuration.threads)
            } else {
                configuration.threads == 1
            }
        },
{
    sweeps_measure_what_is_asked_for(plan.kernels@, plan.threads@, precision, n, configuration);
}

} // verus!
