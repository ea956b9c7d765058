//! Which options are accepted, what they resolve to, and what is reported.

use vstd::prelude::*;
use vstd::arithmetic::power2::{lemma2_to64, lemma_pow2_strictly_increases, pow2};
use crate::benchmark::laws::default_thread_counts_are_powers_of_two;
use crate::text::decimal;
use super::{
    cli_fault, default_kernels, default_thread_counts, doubling, largest, largest_is_the_maximum,
    mps_precision_fault, output_directory_error, output_fault, output_file_error, reports, smallest,
    smallest_is_the_minimum, static_threads_fault, validate_and_resolve_output_paths, validate_cli,
    validate_mps_precision, validate_static_threads, BenchmarkPlan, Cli, Host, KernelChoice, OutputFiles, OutputPath,
    Precision,
};

verus! {

/// Every kernel is reported under its name.
pub proof fn kernels_are_reported_by_name(choice: KernelChoice)
    ensures
        choice == KernelChoice::Naive ==> choice.label_spec() == "naive-ijk"@,
        choice == KernelChoice::Ikj ==> choice.label_spec() == "ikj"@,
        choice == KernelChoice::Tiled ==> choice.label_spec() == "tiled"@,
        choice == KernelChoice::RayonIkj ==> choice.label_spec() == "rayon-ikj"@,
        choice == KernelChoice::RayonTiled ==> choice.label_spec() == "rayon-tiled"@,
        choice == KernelChoice::StaticIkj ==> choice.label_spec() == "static-ikj"@,
        choice == KernelChoice::StaticTiled ==> choice.label_spec() == "static-tiled"@,
        choice == KernelChoice::Mps ==> choice.label_spec() == "mps"@,
{
}

/// Every precision is reported under its name.
pub proof fn precisions_are_reported_by_name(precision: Precision)
    ensures
        precision == Precision::F16 ==> precision.label_spec() == "f16"@,
        precision == Precision::F32 ==> precision.label_spec() == "f32"@,
        precision == Precision::F64 ==> precision.label_spec() == "f64"@,
{
}

/// Two kernels steal work and two give it out in fixed runs of rows: these four
/// use workers. Three kernels work by tiles.
pub proof fn kernels_divide_their_work(choice: KernelChoice)
    ensures
        choice.parallel() <==> {
            ||| choice == KernelChoice::RayonIkj
            ||| choice == KernelChoice::RayonTiled
            ||| choice == KernelChoice::StaticIkj
            ||| choice == KernelChoice::StaticTiled
        },
        choice.fixed_rows() <==> {
            ||| choice == KernelChoice::StaticIkj
            ||| choice == KernelChoice::StaticTiled
        },
        choice.tiled() <==> {
            ||| choice == KernelChoice::Tiled
            ||| choice == KernelChoice::RayonTiled
            ||| choice == KernelChoice::StaticTiled
        },
{
}

/// Where no kernel is asked for, every kernel is run, once: all that run on
/// CPUs whatever the precisions are, and Metal's where the host has it and no
/// double precision is asked for. Simple kernels come before refined ones.
pub proof fn every_kernel_is_a_default(
    metal: bool,
    precisions: Seq<Precision>,
    choice: KernelChoice,
)
    ensures
        choice != KernelChoice::Mps ==> default_kernels(metal, precisions).contains(choice),
        default_kernels(metal, precisions).contains(KernelChoice::Mps) <==> metal
            && !precisions.contains(Precision::F64),
        default_kernels(metal, precisions).no_duplicates(),
        default_kernels(metal, precisions)[0] == KernelChoice::Naive,
        default_kernels(metal, precisions)[1] == KernelChoice::Ikj,
        default_kernels(metal, precisions)[2] == KernelChoice::Tiled,
        default_kernels(metal, precisions)[3] == KernelChoice::RayonIkj,
        default_kernels(metal, precisions)[4] == KernelChoice::RayonTiled,
        default_kernels(metal, precisions)[5] == KernelChoice::StaticIkj,
        default_kernels(metal, precisions)[6] == KernelChoice::StaticTiled,
        metal && !precisions.contains(Precision::F64) ==> default_kernels(metal, precisions).last()
            == KernelChoice::Mps,
{
    let kernels = default_kernels(metal, precisions);
    assert(kernels.contains(kernels[0]) && kernels.contains(kernels[1]));
    assert(kernels.contains(kernels[2]) && kernels.contains(kernels[3]));
    assert(kernels.contains(kernels[4]) && kernels.contains(kernels[5]));
    assert(kernels.contains(kernels[6]));
    if metal && !precisions.contains(Precision::F64) {
        assert(kernels[7] == KernelChoice::Mps);
    }
}

/// What is asked for is what is planned; what is not asked for is filled in:
/// the sizes from 64 to 4096, single precision, the powers of two up to the
/// number of CPUs, and every kernel. Nothing else changes on the way.
pub proof fn options_resolve_as_asked(cli: Cli, host: Host, plan: BenchmarkPlan)
    requires
        cli.resolves_to(host, plan),
        cli.threads@.len() == 0 ==> 0 < host.parallelism,
    ensures
        cli.sizes@.len() > 0 ==> plan.sizes@ == cli.sizes@,
        cli.sizes@.len() == 0 ==> plan.sizes@ == seq![64usize, 128, 256, 512, 1024, 2048, 4096],
        cli.precision@.len() > 0 ==> plan.precisions@ == cli.precision@,
        cli.precision@.len() == 0 ==> plan.precisions@ == seq![Precision::F32],
        cli.threads@.len() > 0 ==> plan.threads@ == cli.threads@,
        cli.threads@.len() == 0 ==> {
            &&& plan.threads@.len() > 0
            &&& forall|t: int|
                0 <= t < plan.threads@.len() ==> #[trigger] plan.threads@[t] == pow2(t as nat)
                    && plan.threads@[t] <= host.parallelism
            &&& host.parallelism < pow2(plan.threads@.len())
        },
        cli.kernel@.len() > 0 ==> plan.kernels@ == cli.kernel@,
        cli.kernel@.len() == 0 ==> {
            &&& plan.kernels@.no_duplicates()
            &&& forall|choice: KernelChoice| #[trigger]
                plan.kernels@.contains(choice) <==> {
                    ||| choice != KernelChoice::Mps
                    ||| host.metal && !plan.precisions@.contains(Precision::F64)
                }
        },
        plan.repetitions == cli.repetitions,
        plan.block_size == cli.block_size,
        plan.no_progress == cli.no_progress,
        plan.outputs.create_parent == cli.output.has_parent,
        plan.outputs.csv@ == "csv"@,
        plan.outputs.json@ == "json"@,
{
    if cli.threads@.len() == 0 {
        default_thread_counts_are_powers_of_two(host.parallelism);
    }
    if cli.kernel@.len() == 0 {
        assert forall|choice: KernelChoice| #[trigger] plan.kernels@.contains(choice) <==> {
            ||| choice != KernelChoice::Mps
            ||| host.metal && !plan.precisions@.contains(Precision::F64)
        } by {
            every_kernel_is_a_default(host.metal, plan.precisions@, choice);
        }
        every_kernel_is_a_default(host.metal, plan.precisions@, KernelChoice::Naive);
    }
}

/// Options that are usable one by one are accepted, and no others. Each zero is
/// reported by the option that holds it, the first of them first.
pub proof fn zeros_are_what_is_wrong(cli: Cli)
    ensures
        cli_fault(cli) is None <==> {
            &&& cli.repetitions > 0
            &&& cli.block_size > 0
            &&& forall|s: int| 0 <= s < cli.sizes@.len() ==> #[trigger] cli.sizes@[s] > 0
            &&& forall|t: int| 0 <= t < cli.threads@.len() ==> #[trigger] cli.threads@[t] > 0
        },
        cli.repetitions == 0 ==> cli_fault(cli) == Some("--repetitions must be greater than zero"@),
        cli.repetitions > 0 && cli.block_size == 0 ==> cli_fault(cli) == Some(
            "--block-size must be greater than zero"@,
        ),
        cli.repetitions > 0 && cli.block_size > 0 && cli.sizes@.contains(0) ==> cli_fault(cli)
            == Some("all --sizes values must be greater than zero"@),
        cli.repetitions > 0 && cli.block_size > 0 && !cli.sizes@.contains(0)
            && cli.threads@.contains(0) ==> cli_fault(cli) == Some(
            "all --threads values must be greater than zero"@,
        ),
{
    if !cli.sizes@.contains(0) {
        assert forall|s: int| 0 <= s < cli.sizes@.len() implies #[trigger] cli.sizes@[s] > 0 by {
            assert(cli.sizes@.contains(cli.sizes@[s]));
        }
    }
    if !cli.threads@.contains(0) {
        assert forall|t: int| 0 <= t < cli.threads@.len() implies #[trigger] cli.threads@[t]
            > 0 by {
            assert(cli.threads@.contains(cli.threads@[t]));
        }
    }
}

/// Worker counts are accepted unless a static kernel would leave a worker
/// without a row of some matrix, and no count stands for one worker.
pub proof fn too_many_workers_are_what_is_wrong(
    kernels: Seq<KernelChoice>,
    threads: Seq<usize>,
    sizes: Seq<usize>,
)
    ensures
        static_threads_fault(kernels, threads, sizes) is None <==> {
            ||| forall|k: int|
                0 <= k < kernels.len() ==> #[trigger] kernels[k] != KernelChoice::StaticIkj
                    && kernels[k] != KernelChoice::StaticTiled
            ||| {
                &&& forall|t: int, s: int|
                    0 <= t < threads.len() && 0 <= s < sizes.len() ==> #[trigger] threads[t]
                        <= #[trigger] sizes[s]
                &&& threads.len() == 0 ==> forall|s: int|
                    0 <= s < sizes.len() ==> 1 <= #[trigger] sizes[s]
            }
        },
{
    if threads.len() > 0 {
        largest_is_the_maximum(threads, 1);
        let t = threads.index_of(largest(threads, 1));
        assert(threads[t] == largest(threads, 1));
    }
    if sizes.len() > 0 {
        smallest_is_the_minimum(sizes, usize::MAX);
        let s = sizes.index_of(smallest(sizes, usize::MAX));
        assert(sizes[s] == smallest(sizes, usize::MAX));
    }
    if kernels.contains(KernelChoice::StaticIkj) {
        let k = kernels.index_of(KernelChoice::StaticIkj);
        assert(kernels[k] == KernelChoice::StaticIkj);
    }
    if kernels.contains(KernelChoice::StaticTiled) {
        let k = kernels.index_of(KernelChoice::StaticTiled);
        assert(kernels[k] == KernelChoice::StaticTiled);
    }
}

/// The largest worker count and the smallest matrix are named where they do not
/// go together.
pub proof fn the_largest_count_and_the_smallest_size_are_reported(
    kernels: Seq<KernelChoice>,
    threads: Seq<usize>,
    sizes: Seq<usize>,
    most: usize,
    least: usize,
)
    requires
        kernels.contains(KernelChoice::StaticIkj) || kernels.contains(KernelChoice::StaticTiled),
        threads.contains(most),
        sizes.contains(least),
        forall|t: int| 0 <= t < threads.len() ==> #[trigger] threads[t] <= most,
        forall|s: int| 0 <= s < sizes.len() ==> least <= #[trigger] sizes[s],
        most > least,
    ensures
        static_threads_fault(kernels, threads, sizes) == Some(
            "static kernels need at least one row per thread; --threads "@ + decimal(most as nat)
                + " exceeds --sizes "@ + decimal(least as nat),
        ),
{
    largest_is_the_maximum(threads, 1);
    smallest_is_the_minimum(sizes, usize::MAX);
    assert(largest(threads, 1) == most);
    assert(smallest(sizes, usize::MAX) == least);
}

/// Metal is refused where double precision is asked for, and nowhere else.
pub proof fn double_precision_is_what_is_wrong_with_metal(
    kernels: Seq<KernelChoice>,
    precisions: Seq<Precision>,
)
    ensures
        mps_precision_fault(kernels, precisions) is Some <==> {
            &&& exists|k: int|
                0 <= k < kernels.len() && #[trigger] kernels[k] == KernelChoice::Mps
            &&& exists|p: int|
                0 <= p < precisions.len() && #[trigger] precisions[p] == Precision::F64
        },
        mps_precision_fault(kernels, precisions) matches Some(message) ==> message
            == "MPS GEMM only supports f16 and f32 precisions; f64 is not supported by Metal Performance Shaders"@,
{
    if kernels.contains(KernelChoice::Mps) {
        let k = kernels.index_of(KernelChoice::Mps);
        assert(kernels[k] == KernelChoice::Mps);
    }
    if precisions.contains(Precision::F64) {
        let p = precisions.index_of(Precision::F64);
        assert(precisions[p] == Precision::F64);
    }
}

/// A destination is accepted if it ends in a file name without extension and is
/// no directory, and only then. The report says what is wrong, and where.
pub proof fn destinations_are_prefixes(path: OutputPath)
    ensures
        output_fault(path) is None <==> !path.is_empty && path.has_file_name && !path.is_directory
            && path.extension is None,
        path.is_empty || !path.has_file_name ==> output_fault(path) == Some(
            "--output must include a destination prefix (e.g. 'data/f16')"@,
        ),
        !path.is_empty && path.has_file_name && path.is_directory ==> output_fault(path) == Some(
            "output path '"@ + path.shown@
                + "' is an existing directory; --output must specify a destination prefix without extension (e.g. '"@
                + path.shown@ + "/results')"@,
        ),
        !path.is_empty && path.has_file_name && !path.is_directory ==> (path.extension matches Some(
            extension,
        ) ==> output_fault(path) == Some(
            "--output must not include a file extension (got '."@ + extension@
                + "'); specify the path prefix (e.g. '"@ + path.shown_without_extension@
                + "') to generate both .csv and .json files"@,
        )),
{
}

/// Usable options are accepted, and no others: every number is positive, every
/// worker of a static kernel gets a row of every matrix, Metal is not asked for
/// double precision, and the destination is a prefix.
pub proof fn usable_options_are_accepted(cli: Cli, host: Host)
    requires
        cli.threads@.len() == 0 ==> 0 < host.parallelism,
    ensures
        cli.plan_fault(host) is None <==> {
            &&& cli.repetitions > 0
            &&& cli.block_size > 0
            &&& forall|s: int| 0 <= s < cli.sizes@.len() ==> #[trigger] cli.sizes@[s] > 0
            &&& forall|t: int| 0 <= t < cli.threads@.len() ==> #[trigger] cli.threads@[t] > 0
            &&& cli.resolved_kernels(host).contains(KernelChoice::StaticIkj)
                || cli.resolved_kernels(host).contains(KernelChoice::StaticTiled) ==> forall|
                t: int,
                s: int,
            |
                0 <= t < cli.resolved_threads(host).len() && 0 <= s < cli.resolved_sizes().len()
                    ==> #[trigger] cli.resolved_threads(host)[t]
                    <= #[trigger] cli.resolved_sizes()[s]
            &&& cli.resolved_kernels(host).contains(KernelChoice::Mps)
                ==> !cli.resolved_precisions().contains(Precision::F64)
            &&& !cli.output.is_empty && cli.output.has_file_name && !cli.output.is_directory
            &&& cli.output.extension is None
        },
{
    let kernels = cli.resolved_kernels(host);
    let threads = cli.resolved_threads(host);
    let sizes = cli.resolved_sizes();
    zeros_are_what_is_wrong(cli);
    too_many_workers_are_what_is_wrong(kernels, threads, sizes);
    double_precision_is_what_is_wrong_with_metal(kernels, cli.resolved_precisions());
    destinations_are_prefixes(cli.output);
    assert forall|k: int| 0 <= k < kernels.len() implies kernels.contains(#[trigger] kernels[k]) by {
    }
    if cli.threads@.len() == 0 {
        default_thread_counts_are_powers_of_two(host.parallelism);
    }
}

/// The options are looked at one by one, then the worker counts, then what is
/// asked of Metal, then the destination: the first fault is the one reported.
pub proof fn the_first_fault_is_reported(cli: Cli, host: Host)
    ensures
        ({
            let kernels = cli.resolved_kernels(host);
            let options = cli_fault(cli);
            let workers = static_threads_fault(
                kernels,
                cli.resolved_threads(host),
                cli.resolved_sizes(),
            );
            let metal = mps_precision_fault(kernels, cli.resolved_precisions());
            &&& options is Some ==> cli.plan_fault(host) == options
            &&& options is None && workers is Some ==> cli.plan_fault(host) == workers
            &&& options is None && workers is None && metal is Some ==> cli.plan_fault(host)
                == metal
            &&& options is None && workers is None && metal is None ==> cli.plan_fault(host)
                == output_fault(cli.output)
        }),
{
}

/// The lists that are validated are those of the plan.
pub proof fn what_is_validated_is_what_is_planned(cli: Cli, host: Host, plan: BenchmarkPlan)
    requires
        cli.resolves_to(host, plan),
    ensures
        cli.resolved_sizes() == plan.sizes@,
        cli.resolved_threads(host) == plan.threads@,
        cli.resolved_precisions() == plan.precisions@,
        cli.resolved_kernels(host) == plan.kernels@,
{
}

/// What a call of [`KernelChoice::label`] returns is the name of the choice.
pub proof fn labels_are_names(choice: KernelChoice, label: &'static str)
    requires
        call_ensures(KernelChoice::label, (choice,), label),
    ensures
        choice == KernelChoice::Naive ==> label@ == "naive-ijk"@,
        choice == KernelChoice::Ikj ==> label@ == "ikj"@,
        choice == KernelChoice::Tiled ==> label@ == "tiled"@,
        choice == KernelChoice::RayonIkj ==> label@ == "rayon-ikj"@,
        choice == KernelChoice::RayonTiled ==> label@ == "rayon-tiled"@,
        choice == KernelChoice::StaticIkj ==> label@ == "static-ikj"@,
        choice == KernelChoice::StaticTiled ==> label@ == "static-tiled"@,
        choice == KernelChoice::Mps ==> label@ == "mps"@,
{
    kernels_are_reported_by_name(choice);
}

/// What a call of [`Precision::label`] returns is the name of the precision.
pub proof fn precision_labels_are_names(precision: Precision, label: &'static str)
    requires
        call_ensures(Precision::label, (precision,), label),
    ensures
        precision == Precision::F16 ==> label@ == "f16"@,
        precision == Precision::F32 ==> label@ == "f32"@,
        precision == Precision::F64 ==> label@ == "f64"@,
{
    precisions_are_reported_by_name(precision);
}

/// A call of [`KernelChoice::uses_workers`] tells the four parallel kernels from
/// the others.
pub proof fn workers_are_used_by_four_kernels(choice: KernelChoice, uses: bool)
    requires
        call_ensures(KernelChoice::uses_workers, (choice,), uses),
    ensures
        choice == KernelChoice::RayonIkj || choice == KernelChoice::RayonTiled ==> uses,
        choice == KernelChoice::StaticIkj || choice == KernelChoice::StaticTiled ==> uses,
        choice == KernelChoice::Naive || choice == KernelChoice::Ikj ==> !uses,
        choice == KernelChoice::Tiled || choice == KernelChoice::Mps ==> !uses,
{
    kernels_divide_their_work(choice);
}

/// A fault is reported word for word, and nothing is reported without one.
pub proof fn faults_are_reported_word_for_word<T>(
    result: Result<T, String>,
    fault: Option<Seq<char>>,
)
    requires
        reports(result, fault),
    ensures
        fault is None ==> result is Ok,
        fault matches Some(words) ==> (result matches Err(message) && message@ == words),
{
}

/// A call of [`validate_cli`] accepts options without a zero, and no others.
pub proof fn options_without_zeros_are_valid(cli: Cli, result: Result<(), String>)
    requires
        call_ensures(validate_cli, (&cli,), result),
    ensures
        result is Ok <==> cli.repetitions > 0 && cli.block_size > 0 && !cli.sizes@.contains(0)
            && !cli.threads@.contains(0),
        result matches Err(message) ==> {
            &&& cli.repetitions == 0 ==> message@ == "--repetitions must be greater than zero"@
            &&& cli.repetitions > 0 && cli.block_size == 0 ==> message@
                == "--block-size must be greater than zero"@
            &&& cli.repetitions > 0 && cli.block_size > 0 && cli.sizes@.contains(0) ==> message@
                == "all --sizes values must be greater than zero"@
            &&& cli.repetitions > 0 && cli.block_size > 0 && !cli.sizes@.contains(0) ==> message@
                == "all --threads values must be greater than zero"@
        },
{
    zeros_are_what_is_wrong(cli);
}

/// A call of [`validate_static_threads`] accepts worker counts that leave no
/// worker of a static kernel without a row, and no others.
pub proof fn static_workers_need_a_row(
    kernels: &[KernelChoice],
    threads: &[usize],
    sizes: &[usize],
    result: Result<(), String>,
)
    requires
        call_ensures(validate_static_threads, (kernels, threads, sizes), result),
        threads@.len() > 0,
    ensures
        result is Ok <==> {
            ||| !kernels@.contains(KernelChoice::StaticIkj) && !kernels@.contains(
                KernelChoice::StaticTiled,
            )
            ||| forall|t: int, s: int|
                0 <= t < threads@.len() && 0 <= s < sizes@.len() ==> #[trigger] threads@[t]
                    <= #[trigger] sizes@[s]
        },
{
    too_many_workers_are_what_is_wrong(kernels@, threads@, sizes@);
    assert forall|k: int| 0 <= k < kernels@.len() implies kernels@.contains(
        #[trigger] kernels@[k],
    ) by {}
}

/// A call of [`validate_mps_precision`] refuses double precision for Metal, and
/// nothing else.
pub proof fn metal_takes_no_double_precision(
    kernels: &[KernelChoice],
    precisions: &[Precision],
    result: Result<(), String>,
)
    requires
        call_ensures(validate_mps_precision, (kernels, precisions), result),
    ensures
        result is Err <==> kernels@.contains(KernelChoice::Mps) && precisions@.contains(
            Precision::F64,
        ),
{
    double_precision_is_what_is_wrong_with_metal(kernels@, precisions@);
}

/// A call of [`validate_and_resolve_output_paths`] accepts a prefix without
/// extension that is no directory, and nothing else.
pub proof fn outputs_go_to_a_prefix(path: OutputPath, result: Result<OutputFiles, String>)
    requires
        call_ensures(validate_and_resolve_output_paths, (&path,), result),
    ensures
        result is Ok <==> !path.is_empty && path.has_file_name && !path.is_directory
            && path.extension is None,
        result matches Ok(outputs) ==> outputs.csv@ == "csv"@ && outputs.json@ == "json"@
            && outputs.create_parent == path.has_parent,
{
    destinations_are_prefixes(path);
}

/// A call of [`Cli::into_plan`] makes a plan of usable options, and reports a
/// fault of all others. The plan holds what was asked for. Where nothing was
/// asked for, it holds every kernel that the host has and that supports the
/// precisions, once, and the default sizes, worker counts and precision.
pub proof fn plans_are_made_of_usable_options(
    cli: Cli,
    host: Host,
    result: Result<BenchmarkPlan, String>,
    threads: Seq<usize>,
    sizes: Seq<usize>,
)
    requires
        call_ensures(Cli::into_plan, (cli, host), result),
        cli.threads@.len() == 0 ==> 0 < host.parallelism,
        threads == if cli.threads@.len() > 0 {
            cli.threads@
        } else {
            doubling(1, host.parallelism)
        },
        sizes == if cli.sizes@.len() > 0 {
            cli.sizes@
        } else {
            seq![64usize, 128, 256, 512, 1024, 2048, 4096]
        },
    ensures
        result is Ok <==> {
            &&& cli.repetitions > 0
            &&& cli.block_size > 0
            &&& !cli.sizes@.contains(0)
            &&& !cli.threads@.contains(0)
            &&& cli.kernel@.len() == 0 || cli.kernel@.contains(KernelChoice::StaticIkj)
                || cli.kernel@.contains(KernelChoice::StaticTiled) ==> forall|t: int, s: int|
                0 <= t < threads.len() && 0 <= s < sizes.len() ==> #[trigger] threads[t]
                    <= #[trigger] sizes[s]
            &&& cli.kernel@.contains(KernelChoice::Mps) ==> !cli.precision@.contains(Precision::F64)
            &&& !cli.output.is_empty && cli.output.has_file_name && !cli.output.is_directory
            &&& cli.output.extension is None
        },
        result matches Ok(plan) ==> {
            &&& plan.sizes@ == sizes
            &&& plan.threads@ == threads
            &&& cli.threads@.len() == 0 ==> {
                &&& plan.threads@.len() > 0
                &&& forall|t: int|
                    0 <= t < plan.threads@.len() ==> #[trigger] plan.threads@[t] == pow2(t as nat)
                        && plan.threads@[t] <= host.parallelism
                &&& host.parallelism < pow2(plan.threads@.len())
            }
            &&& plan.precisions@ == if cli.precision@.len() > 0 {
                cli.precision@
            } else {
                seq![Precision::F32]
            }
            &&& cli.kernel@.len() > 0 ==> plan.kernels@ == cli.kernel@
            &&& cli.kernel@.len() == 0 ==> {
                &&& plan.kernels@.no_duplicates()
                &&& forall|choice: KernelChoice| #[trigger]
                    plan.kernels@.contains(choice) <==> {
                        ||| choice != KernelChoice::Mps
                        ||| host.metal && !cli.precision@.contains(Precision::F64)
                    }
            }
            &&& plan.repetitions == cli.repetitions
            &&& plan.block_size == cli.block_size
            &&& plan.no_progress == cli.no_progress
            &&& plan.outputs.csv@ == "csv"@
            &&& plan.outputs.json@ == "json"@
            &&& plan.outputs.create_parent == cli.output.has_parent
        },
        result matches Err(message) ==> cli.plan_fault(host) == Some(message@),
{
    usable_options_are_accepted(cli, host);
    every_kernel_is_a_default(
        host.metal,
        cli.resolved_precisions(),
        KernelChoice::StaticIkj,
    );
    if let Ok(plan) = result {
        options_resolve_as_asked(cli, host, plan);
    }
    assert forall|s: int| 0 <= s < cli.sizes@.len() implies cli.sizes@.contains(
        #[trigger] cli.sizes@[s],
    ) by {}
    assert forall|t: int| 0 <= t < cli.threads@.len() implies cli.threads@.contains(
        #[trigger] cli.threads@[t],
    ) by {}
    assert(!seq![Precision::F32].contains(Precision::F64));
    assert(threads == cli.resolved_threads(host));
    assert(sizes == cli.resolved_sizes());
}

/// A call of [`Cli::into_plan`] without any list accepts the defaults on every
/// host whose worker counts fit the smallest default size.
pub proof fn the_defaults_are_usable(cli: Cli, host: Host, result: Result<BenchmarkPlan, String>)
    requires
        call_ensures(Cli::into_plan, (cli, host), result),
        cli.sizes@.len() == 0,
        cli.threads@.len() == 0,
        cli.kernel@.len() == 0,
        cli.precision@.len() == 0,
        cli.repetitions > 0,
        cli.block_size > 0,
        0 < host.parallelism < 128,
        !cli.output.is_empty,
        cli.output.has_file_name,
        !cli.output.is_directory,
        cli.output.extension is None,
    ensures
        result matches Ok(plan) && plan.sizes@ == seq![
            64usize,
            128,
            256,
            512,
            1024,
            2048,
            4096,
        ] && plan.precisions@ == seq![Precision::F32] && plan.threads@.contains(1)
            && plan.kernels@.len() == if host.metal {
            8nat
        } else {
            7
        },
{
    usable_options_are_accepted(cli, host);
    default_thread_counts_are_powers_of_two(host.parallelism);
    lemma2_to64();
    let counts = cli.resolved_threads(host);
    assert(counts == doubling(1, host.parallelism));
    assert forall|t: int, s: int|
        0 <= t < counts.len() && 0 <= s < cli.resolved_sizes().len() implies #[trigger] counts[t]
        <= #[trigger] cli.resolved_sizes()[s] by {
        if t >= 7 {
            if t > 7 {
                lemma_pow2_strictly_increases(7, t as nat);
            }
            assert(counts[t] == pow2(t as nat));
        } else {
            lemma_pow2_strictly_increases(t as nat, 7);
            if t < 6 {
                lemma_pow2_strictly_increases(t as nat, 6);
            }
        }
    }
    assert(counts.contains(counts[0]));
    if let Ok(plan) = result {
        options_resolve_as_asked(cli, host, plan);
    }
}

/// A call of [`default_thread_counts`] returns the powers of two up to the
/// number of CPUs.
pub proof fn default_counts_double(max: usize, counts: Vec<usize>)
    requires
        call_ensures(default_thread_counts, (max,), counts),
        0 < max,
    ensures
        counts@.len() > 0,
        counts@[0] == 1,
        forall|i: int|
            0 <= i < counts@.len() ==> #[trigger] counts@[i] == pow2(i as nat) && counts@[i] <= max,
        max < pow2(counts@.len()),
{
    default_thread_counts_are_powers_of_two(max);
}

/// What cannot be created or opened is named, with the reason.
pub proof fn outputs_that_fail_are_named(
    path: &str,
    error: &str,
    directory: String,
    file: String,
)
    requires
        call_ensures(output_directory_error, (path, error), directory),
        call_ensures(output_file_error, (path, error), file),
    ensures
        directory@ == "cannot create output directory '"@ + path@ + "': "@ + error@,
        file@ == "cannot open output file '"@ + path@ + "': "@ + error@,
{
}

} // verus!
