//! Command line options and the benchmark plan they resolve to.

use vstd::prelude::*;
use crate::text::{append_decimal, decimal};

pub mod laws;

verus! {

/// The kernels that can be asked for.
#[derive(Clone, Copy, Debug, PartialEq, Eq, Structural)]
pub enum KernelChoice {
    Naive,
    Ikj,
    Tiled,
    RayonIkj,
    RayonTiled,
    StaticIkj,
    StaticTiled,
    /// Metal Performance Shaders, which only some hosts have.
    Mps,
}

impl KernelChoice {
    /// The name under which results are reported.
    pub open spec fn label_spec(self) -> Seq<char> {
        match self {
            KernelChoice::Naive => "naive-ijk"@,
            KernelChoice::Ikj => "ikj"@,
            KernelChoice::Tiled => "tiled"@,
            KernelChoice::RayonIkj => "rayon-ikj"@,
            KernelChoice::RayonTiled => "rayon-tiled"@,
            KernelChoice::StaticIkj => "static-ikj"@,
            KernelChoice::StaticTiled => "static-tiled"@,
            KernelChoice::Mps => "mps"@,
        }
    }

    pub fn label(self) -> (label: &'static str)
        ensures
            label@ == self.label_spec(),
    {
        match self {
            KernelChoice::Naive => "naive-ijk",
            KernelChoice::Ikj => "ikj",
            KernelChoice::Tiled => "tiled",
            KernelChoice::RayonIkj => "rayon-ikj",
            KernelChoice::RayonTiled => "rayon-tiled",
            KernelChoice::StaticIkj => "static-ikj",
            KernelChoice::StaticTiled => "static-tiled",
            KernelChoice::Mps => "mps",
        }
    }

    /// The kernel is measured once per worker count.
    pub open spec fn parallel(self) -> bool {
        ||| self == KernelChoice::RayonIkj
        ||| self == KernelChoice::RayonTiled
        ||| self.fixed_rows()
    }

    /// The kernel gives every worker a fixed run of rows.
    pub open spec fn fixed_rows(self) -> bool {
        self == KernelChoice::StaticIkj || self == KernelChoice::StaticTiled
    }

    /// The kernel works by tiles.
    pub open spec fn tiled(self) -> bool {
        ||| self == KernelChoice::Tiled
        ||| self == KernelChoice::RayonTiled
        ||| self == KernelChoice::StaticTiled
    }

    pub fn uses_workers(self) -> (uses: bool)
        ensures
            uses == self.parallel(),
    {
        matches!(
            self,
            KernelChoice::RayonIkj | KernelChoice::RayonTiled | KernelChoice::StaticIkj
                | KernelChoice::StaticTiled
        )
    }
}

/// The element types that can be asked for.
#[derive(Clone, Copy, Debug, PartialEq, Eq, Structural)]
pub enum Precision {
    F16,
    F32,
    F64,
}

impl Precision {
    /// The name under which results are reported.
    pub open spec fn label_spec(self) -> Seq<char> {
        match self {
            Precision::F16 => "f16"@,
            Precision::F32 => "f32"@,
            Precision::F64 => "f64"@,
        }
    }

    pub fn label(self) -> (label: &'static str)
        ensures
            label@ == self.label_spec(),
    {
        match self {
            Precision::F16 => "f16",
            Precision::F32 => "f32",
            Precision::F64 => "f64",
        }
    }
}

/// What is known of the machine that the benchmark runs on.
#[derive(Clone, Copy, Debug)]
pub struct Host {
    /// The number of CPUs available.
    pub parallelism: usize,
    /// Whether it has Metal Performance Shaders.
    pub metal: bool,
}

/// What is known of the destination path prefix before anything is written.
#[derive(Debug)]
pub struct OutputPath {
    /// Whether it is the empty path.
    pub is_empty: bool,
    /// Whether it ends in a file name.
    pub has_file_name: bool,
    /// Whether it names a directory before the file name.
    pub has_parent: bool,
    /// Whether it is an existing directory.
    pub is_directory: bool,
    /// The extension of the file name as it is shown, where it has one, be it
    /// text or not.
    pub extension: Option<String>,
    /// The path as it is shown.
    pub shown: String,
    /// The path without its extension, as it is shown.
    pub shown_without_extension: String,
}

/// How the two outputs are made of a destination path prefix.
#[derive(Clone, Copy, Debug)]
pub struct OutputFiles {
    /// Whether there is a directory to create, if missing, before the files
    /// are opened.
    pub create_parent: bool,
    /// The extension of the first file.
    pub csv: &'static str,
    /// The extension of the second file.
    pub json: &'static str,
}

/// Command line options.
#[derive(Debug)]
pub struct Cli {
    /// Matrix dimensions. Empty for the default ones.
    pub sizes: Vec<usize>,
    /// Worker counts. Empty for powers of two up to available CPUs.
    pub threads: Vec<usize>,
    /// Kernel(s) to run. Empty to run every kernel.
    pub kernel: Vec<KernelChoice>,
    /// Element precision(s). Empty for f32.
    pub precision: Vec<Precision>,
    /// Number of measured runs per configuration, after one untimed warm-up
    /// run; records contain their mean.
    pub repetitions: usize,
    /// Tile edge length for the blocked kernels.
    pub block_size: usize,
    /// Destination path prefix without extension.
    pub output: OutputPath,
    /// Disable the interactive progress bar.
    pub no_progress: bool,
}

/// Fully resolved configuration used by the benchmark runner.
#[derive(Debug)]
pub struct BenchmarkPlan {
    pub sizes: Vec<usize>,
    pub threads: Vec<usize>,
    pub kernels: Vec<KernelChoice>,
    pub precisions: Vec<Precision>,
    pub repetitions: usize,
    pub block_size: usize,
    pub outputs: OutputFiles,
    pub no_progress: bool,
}

/// A check that reports the message of what it finds.
pub open spec fn reports<T>(result: Result<T, String>, fault: Option<Seq<char>>) -> bool {
    match result {
        Ok(_) => fault is None,
        Err(message) => fault == Some(message@),
    }
}

fn contains_zero(values: &[usize]) -> (found: bool)
    ensures
        found == values@.contains(0),
{
    let mut i: usize = 0;
    while i < values.len()
        invariant
            i <= values@.len(),
            forall|x: int| 0 <= x < i ==> #[trigger] values@[x] != 0,
        decreases values@.len() - i,
    {
        if values[i] == 0 {
            assert(values@[i as int] == 0);
            return true;
        }
        i += 1;
    }
    false
}

fn contains_kernel(values: &[KernelChoice], wanted: KernelChoice) -> (found: bool)
    ensures
        found == values@.contains(wanted),
{
    let mut i: usize = 0;
    while i < values.len()
        invariant
            i <= values@.len(),
            forall|x: int| 0 <= x < i ==> #[trigger] values@[x] != wanted,
        decreases values@.len() - i,
    {
        if values[i] == wanted {
            assert(values@[i as int] == wanted);
            return true;
        }
        i += 1;
    }
    false
}

fn contains_precision(values: &[Precision], wanted: Precision) -> (found: bool)
    ensures
        found == values@.contains(wanted),
{
    let mut i: usize = 0;
    while i < values.len()
        invariant
            i <= values@.len(),
            forall|x: int| 0 <= x < i ==> #[trigger] values@[x] != wanted,
        decreases values@.len() - i,
    {
        if values[i] == wanted {
            assert(values@[i as int] == wanted);
            return true;
        }
        i += 1;
    }
    false
}

/// What is wrong with the options taken one by one.
pub open spec fn cli_fault(cli: Cli) -> Option<Seq<char>> {
    if cli.repetitions == 0 {
        Some("--repetitions must be greater than zero"@)
    } else if cli.block_size == 0 {
        Some("--block-size must be greater than zero"@)
    } else if cli.sizes@.contains(0) {
        Some("all --sizes values must be greater than zero"@)
    } else if cli.threads@.contains(0) {
        Some("all --threads values must be greater than zero"@)
    } else {
        None
    }
}

pub fn validate_cli(cli: &Cli) -> (result: Result<(), String>)
    ensures
        reports(result, cli_fault(*cli)),
{
    if cli.repetitions == 0 {
        return Err("--repetitions must be greater than zero".to_owned());
    }
    if cli.block_size == 0 {
        return Err("--block-size must be greater than zero".to_owned());
    }
    if contains_zero(&cli.sizes) {
        return Err("all --sizes values must be greater than zero".to_owned());
    }
    if contains_zero(&cli.threads) {
        return Err("all --threads values must be greater than zero".to_owned());
    }
    Ok(())
}

/// The largest value, or `default` where there is none.
pub open spec fn largest(values: Seq<usize>, default: usize) -> usize
    decreases values.len(),
{
    if values.len() == 0 {
        default
    } else if values.len() == 1 || values.last() > largest(values.drop_last(), default) {
        values.last()
    } else {
        largest(values.drop_last(), default)
    }
}

/// The smallest value, or `default` where there is none.
pub open spec fn smallest(values: Seq<usize>, default: usize) -> usize
    decreases values.len(),
{
    if values.len() == 0 {
        default
    } else if values.len() == 1 || values.last() < smallest(values.drop_last(), default) {
        values.last()
    } else {
        smallest(values.drop_last(), default)
    }
}

/// The largest value is one of them, and none is larger.
pub proof fn largest_is_the_maximum(values: Seq<usize>, default: usize)
    requires
        values.len() > 0,
    ensures
        values.contains(largest(values, default)),
        forall|x: int| 0 <= x < values.len() ==> #[trigger] values[x] <= largest(values, default),
    decreases values.len(),
{
    let rest = values.drop_last();
    assert(values[values.len() - 1] == values.last());
    if values.len() > 1 {
        largest_is_the_maximum(rest, default);
        let at = rest.index_of(largest(rest, default));
        assert(values[at] == rest[at]);
        assert forall|x: int| 0 <= x < values.len() implies #[trigger] values[x] <= largest(
            values,
            default,
        ) by {
            if x < values.len() - 1 {
                assert(rest[x] == values[x]);
            }
        }
    }
}

/// The smallest value is one of them, and none is smaller.
pub proof fn smallest_is_the_minimum(values: Seq<usize>, default: usize)
    requires
        values.len() > 0,
    ensures
        values.contains(smallest(values, default)),
        forall|x: int| 0 <= x < values.len() ==> smallest(values, default) <= #[trigger] values[x],
    decreases values.len(),
{
    let rest = values.drop_last();
    assert(values[values.len() - 1] == values.last());
    if values.len() > 1 {
        smallest_is_the_minimum(rest, default);
        let at = rest.index_of(smallest(rest, default));
        assert(values[at] == rest[at]);
        assert forall|x: int| 0 <= x < values.len() implies smallest(values, default)
            <= #[trigger] values[x] by {
            if x < values.len() - 1 {
                assert(rest[x] == values[x]);
            }
        }
    }
}

fn find_largest(values: &[usize], default: usize) -> (found: usize)
    ensures
        found == largest(values@, default),
{
    let mut found: usize = default;
    let mut i: usize = 0;
    while i < values.len()
        invariant
            i <= values@.len(),
            found == largest(values@.take(i as int), default),
        decreases values@.len() - i,
    {
        assert(values@.take(i + 1).drop_last() =~= values@.take(i as int));
        if i == 0 || values[i] > found {
            found = values[i];
        }
        i += 1;
    }
    assert(values@.take(i as int) =~= values@);
    found
}

fn find_smallest(values: &[usize], default: usize) -> (found: usize)
    ensures
        found == smallest(values@, default),
{
    let mut found: usize = default;
    let mut i: usize = 0;
    while i < values.len()
        invariant
            i <= values@.len(),
            found == smallest(values@.take(i as int), default),
        decreases values@.len() - i,
    {
        assert(values@.take(i + 1).drop_last() =~= values@.take(i as int));
        if i == 0 || values[i] < found {
            found = values[i];
        }
        i += 1;
    }
    assert(values@.take(i as int) =~= values@);
    found
}

/// What is wrong with giving every worker of a static kernel a row.
pub open spec fn static_threads_fault(
    kernels: Seq<KernelChoice>,
    threads: Seq<usize>,
    sizes: Seq<usize>,
) -> Option<Seq<char>> {
    let max_threads = largest(threads, 1);
    let min_size = smallest(sizes, usize::MAX);
    if (kernels.contains(KernelChoice::StaticIkj) || kernels.contains(KernelChoice::StaticTiled))
        && max_threads > min_size {
        Some(
            "static kernels need at least one row per thread; --threads "@ + decimal(
                max_threads as nat,
            ) + " exceeds --sizes "@ + decimal(min_size as nat),
        )
    } else {
        None
    }
}

/// `static-ikj` and `static-tiled` give every worker at least one row, so a
/// worker count above the smallest matrix dimension cannot be honored and is
/// rejected up front.
pub fn validate_static_threads(
    kernels: &[KernelChoice],
    threads: &[usize],
    sizes: &[usize],
) -> (result: Result<(), String>)
    ensures
        reports(result, static_threads_fault(kernels@, threads@, sizes@)),
{
    if !contains_kernel(kernels, KernelChoice::StaticIkj) && !contains_kernel(
        kernels,
        KernelChoice::StaticTiled,
    ) {
        return Ok(());
    }
    let max_threads = find_largest(threads, 1);
    let min_size = find_smallest(sizes, usize::MAX);
    if max_threads > min_size {
        let mut message = "static kernels need at least one row per thread; --threads ".to_owned();
        append_decimal(&mut message, max_threads);
        message.append(" exceeds --sizes ");
        append_decimal(&mut message, min_size);
        return Err(message);
    }
    Ok(())
}

/// What is wrong with running a Metal kernel at a precision.
pub open spec fn mps_precision_fault(
    kernels: Seq<KernelChoice>,
    precisions: Seq<Precision>,
) -> Option<Seq<char>> {
    if kernels.contains(KernelChoice::Mps) && precisions.contains(Precision::F64) {
        Some(
            "MPS GEMM only supports f16 and f32 precisions; f64 is not supported by Metal Performance Shaders"@,
        )
    } else {
        None
    }
}

pub fn validate_mps_precision(kernels: &[KernelChoice], precisions: &[Precision]) -> (result:
    Result<(), String>)
    ensures
        reports(result, mps_precision_fault(kernels@, precisions@)),
{
    if contains_kernel(kernels, KernelChoice::Mps) && contains_precision(
        precisions,
        Precision::F64,
    ) {
        return Err(
            "MPS GEMM only supports f16 and f32 precisions; f64 is not supported by Metal Performance Shaders".to_owned(),
        );
    }
    Ok(())
}

/// What is wrong with a destination path prefix.
pub open spec fn output_fault(path: OutputPath) -> Option<Seq<char>> {
    if path.is_empty || !path.has_file_name {
        Some("--output must include a destination prefix (e.g. 'data/f16')"@)
    } else if path.is_directory {
        Some(
            "output path '"@ + path.shown@
                + "' is an existing directory; --output must specify a destination prefix without extension (e.g. '"@
                + path.shown@ + "/results')"@,
        )
    } else if path.extension is Some {
        Some(
            "--output must not include a file extension (got '."@ + path.extension->0@
                + "'); specify the path prefix (e.g. '"@ + path.shown_without_extension@
                + "') to generate both .csv and .json files"@,
        )
    } else {
        None
    }
}

/// The outputs go where the destination path prefix says.
pub open spec fn outputs_of(path: OutputPath, outputs: OutputFiles) -> bool {
    &&& outputs.create_parent == path.has_parent
    &&& outputs.csv@ == "csv"@
    &&& outputs.json@ == "json"@
}

pub fn validate_and_resolve_output_paths(path: &OutputPath) -> (result: Result<OutputFiles, String>)
    ensures
        reports(result, output_fault(*path)),
        result matches Ok(outputs) ==> outputs_of(*path, outputs),
{
    if path.is_empty || !path.has_file_name {
        return Err("--output must include a destination prefix (e.g. 'data/f16')".to_owned());
    }
    if path.is_directory {
        let mut message = "output path '".to_owned();
        message.append(path.shown.as_str());
        message.append(
            "' is an existing directory; --output must specify a destination prefix without extension (e.g. '",
        );
        message.append(path.shown.as_str());
        message.append("/results')");
        return Err(message);
    }
    if let Some(extension) = &path.extension {
        let mut message = "--output must not include a file extension (got '.".to_owned();
        message.append(extension.as_str());
        message.append("'); specify the path prefix (e.g. '");
        message.append(path.shown_without_extension.as_str());
        message.append("') to generate both .csv and .json files");
        return Err(message);
    }
    Ok(OutputFiles { create_parent: path.has_parent, csv: "csv", json: "json" })
}

/// What is reported where the directory of the outputs cannot be created.
pub fn output_directory_error(directory: &str, error: &str) -> (message: String)
    ensures
        message@ == "cannot create output directory '"@ + directory@ + "': "@ + error@,
{
    let mut message = "cannot create output directory '".to_owned();
    message.append(directory);
    message.append("': ");
    message.append(error);
    message
}

/// What is reported where an output cannot be opened.
pub fn output_file_error(file: &str, error: &str) -> (message: String)
    ensures
        message@ == "cannot open output file '"@ + file@ + "': "@ + error@,
{
    let mut message = "cannot open output file '".to_owned();
    message.append(file);
    message.append("': ");
    message.append(error);
    message
}

/// The counts from `from` on, each twice the one before, as long as they do not
/// exceed `max`.
pub open spec fn doubling(from: int, max: usize) -> Seq<usize>
    decreases
            if from <= max {
                max - from + 1
            } else {
                0
            },
{
    if 0 < from <= max {
        seq![from as usize] + doubling(2 * from, max)
    } else {
        Seq::empty()
    }
}

/// Powers of two up to `max`.
pub fn default_thread_counts(max: usize) -> (counts: Vec<usize>)
    requires
        0 < max,
    ensures
        counts@ == doubling(1, max),
{
    let mut counts: Vec<usize> = Vec::new();
    let mut current: usize = 1;
    counts.push(current);
    assert(counts@ + doubling(2, max) == doubling(1, max));
    while current <= max / 2
        invariant
            0 < current <= max,
            counts@ + doubling(2 * current, max) == doubling(1, max),
        decreases max - current,
    {
        current *= 2;
        counts.push(current);
        assert(counts@ + doubling(2 * current, max) == doubling(1, max));
    }
    assert(counts@ == doubling(1, max));
    counts
}

/// The matrix dimensions measured where none are asked for.
pub open spec fn default_sizes() -> Seq<usize> {
    seq![64, 128, 256, 512, 1024, 2048, 4096]
}

/// The kernels measured where none are asked for: every one that the host has
/// and that supports the precisions.
pub open spec fn default_kernels(metal: bool, precisions: Seq<Precision>) -> Seq<KernelChoice> {
    let everywhere = seq![
        KernelChoice::Naive,
        KernelChoice::Ikj,
        KernelChoice::Tiled,
        KernelChoice::RayonIkj,
        KernelChoice::RayonTiled,
        KernelChoice::StaticIkj,
        KernelChoice::StaticTiled,
    ];
    if metal && !precisions.contains(Precision::F64) {
        everywhere.push(KernelChoice::Mps)
    } else {
        everywhere
    }
}

impl Cli {
    pub open spec fn resolved_sizes(self) -> Seq<usize> {
        if self.sizes@.len() == 0 {
            default_sizes()
        } else {
            self.sizes@
        }
    }

    pub open spec fn resolved_threads(self, host: Host) -> Seq<usize> {
        if self.threads@.len() == 0 {
            doubling(1, host.parallelism)
        } else {
            self.threads@
        }
    }

    pub open spec fn resolved_precisions(self) -> Seq<Precision> {
        if self.precision@.len() == 0 {
            seq![Precision::F32]
        } else {
            self.precision@
        }
    }

    pub open spec fn resolved_kernels(self, host: Host) -> Seq<KernelChoice> {
        if self.kernel@.len() == 0 {
            default_kernels(host.metal, self.resolved_precisions())
        } else {
            self.kernel@
        }
    }

    /// The first thing that is wrong with the options: each by itself, then the
    /// resolved sweep, then the destination.
    pub open spec fn plan_fault(self, host: Host) -> Option<Seq<char>> {
        let sizes = self.resolved_sizes();
        let threads = self.resolved_threads(host);
        let precisions = self.resolved_precisions();
        let kernels = self.resolved_kernels(host);
        if cli_fault(self) is Some {
            cli_fault(self)
        } else if static_threads_fault(kernels, threads, sizes) is Some {
            static_threads_fault(kernels, threads, sizes)
        } else if mps_precision_fault(kernels, precisions) is Some {
            mps_precision_fault(kernels, precisions)
        } else {
            output_fault(self.output)
        }
    }

    /// The plan is what the options resolve to on the host.
    pub open spec fn resolves_to(self, host: Host, plan: BenchmarkPlan) -> bool {
        &&& plan.sizes@ == self.resolved_sizes()
        &&& plan.threads@ == self.resolved_threads(host)
        &&& plan.precisions@ == self.resolved_precisions()
        &&& plan.kernels@ == self.resolved_kernels(host)
        &&& plan.repetitions == self.repetitions
        &&& plan.block_size == self.block_size
        &&& outputs_of(self.output, plan.outputs)
        &&& plan.no_progress == self.no_progress
    }

    /// Fills in the defaults and validates the resolved sweep.
    ///
    /// Nothing is written: a plan is accepted or rejected before the outputs
    /// are opened.
    pub fn into_plan(self, host: Host) -> (result: Result<BenchmarkPlan, String>)
        requires
            self.threads@.len() == 0 ==> 0 < host.parallelism,
            !host.metal ==> !self.kernel@.contains(KernelChoice::Mps),
        ensures
            reports(result, self.plan_fault(host)),
            result matches Ok(plan) ==> self.resolves_to(host, plan),
    {
        if let Err(message) = validate_cli(&self) {
            return Err(message);
        }
        let ghost cli = self;

        let sizes: Vec<usize> = if self.sizes.len() == 0 {
            vec![64, 128, 256, 512, 1024, 2048, 4096]
        } else {
            self.sizes
        };
        let threads: Vec<usize> = if self.threads.len() == 0 {
            default_thread_counts(host.parallelism)
        } else {
            self.threads
        };
        let precisions: Vec<Precision> = if self.precision.len() == 0 {
            vec![Precision::F32]
        } else {
            self.precision
        };
        let kernels: Vec<KernelChoice> = if self.kernel.len() == 0 {
            let mut list = vec![
                KernelChoice::Naive,
                KernelChoice::Ikj,
                KernelChoice::Tiled,
                KernelChoice::RayonIkj,
                KernelChoice::RayonTiled,
                KernelChoice::StaticIkj,
                KernelChoice::StaticTiled,
            ];
            if host.metal && !contains_precision(&precisions, Precision::F64) {
                list.push(KernelChoice::Mps);
            }
            list
        } else {
            self.kernel
        };
        assert(sizes@ == cli.resolved_sizes());
        assert(precisions@ == cli.resolved_precisions());
        assert(kernels@ == cli.resolved_kernels(host));

        if let Err(message) = validate_static_threads(&kernels, &threads, &sizes) {
            return Err(message);
        }
        if let Err(message) = validate_mps_precision(&kernels, &precisions) {
            return Err(message);
        }
        match validate_and_resolve_output_paths(&self.output) {
            Ok(outputs) => Ok(
                BenchmarkPlan {
                    sizes,
                    threads,
                    kernels,
                    precisions,
                    repetitions: self.repetitions,
                    block_size: self.block_size,
                    outputs,
                    no_progress: self.no_progress,
                },
            ),
            Err(message) => Err(message),
        }
    }
}

/// How often the kernels are measured on one matrix: once per worker count
/// where they use workers, and once where they do not.
pub open spec fn configurations_per_matrix(kernels: Seq<KernelChoice>, thread_counts: nat) -> nat
    decreases kernels.len(),
{
    if kernels.len() == 0 {
        0
    } else {
        configurations_per_matrix(kernels.drop_last(), thread_counts) + if kernels.last().parallel() {
            thread_counts
        } else {
            1
        }
    }
}

/// Fewer kernels are measured no more often.
proof fn lemma_configurations_grow(kernels: Seq<KernelChoice>, thread_counts: nat, count: int)
    requires
        0 <= count <= kernels.len(),
    ensures
        configurations_per_matrix(kernels.take(count), thread_counts) <= configurations_per_matrix(
            kernels,
            thread_counts,
        ),
    decreases kernels.len() - count,
{
    if count < kernels.len() {
        assert(kernels.take(count + 1).drop_last() == kernels.take(count));
        lemma_configurations_grow(kernels, thread_counts, count + 1);
    } else {
        assert(kernels.take(count) == kernels);
    }
}

impl BenchmarkPlan {
    /// How often the kernels are measured on each matrix.
    pub open spec fn per_matrix(self) -> nat {
        configurations_per_matrix(self.kernels@, self.threads@.len())
    }

    /// The number of configurations that will be measured.
    pub open spec fn total(self) -> nat {
        self.precisions@.len() * self.sizes@.len() * self.per_matrix()
    }

    /// Returns the exact number of configurations that will be measured.
    pub fn total_configurations(&self) -> (total: usize)
        requires
            self.per_matrix() <= usize::MAX,
            self.precisions@.len() * self.sizes@.len() <= usize::MAX,
            self.total() <= usize::MAX,
        ensures
            total == self.total(),
    {
        let mut per_matrix: usize = 0;
        let mut i: usize = 0;
        while i < self.kernels.len()
            invariant
                i <= self.kernels@.len(),
                self.per_matrix() <= usize::MAX,
                per_matrix == configurations_per_matrix(
                    self.kernels@.take(i as int),
                    self.threads@.len(),
                ),
            decreases self.kernels@.len() - i,
        {
            proof {
                assert(self.kernels@.take(i + 1).drop_last() == self.kernels@.take(i as int));
                lemma_configurations_grow(self.kernels@, self.threads@.len(), i + 1);
            }
            per_matrix +=
            if self.kernels[i].uses_workers() {
                self.threads.len()
            } else {
                1
            };
            i += 1;
        }
        assert(self.kernels@.take(i as int) == self.kernels@);
        self.precisions.len() * self.sizes.len() * per_matrix
    }
}

} // verus!
