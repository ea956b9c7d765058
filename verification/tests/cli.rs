use std::path::Path;

use rayon_gemm::cli::{
    default_thread_counts, output_directory_error, output_file_error, validate_and_resolve_output_paths, validate_cli,
    validate_mps_precision, validate_static_threads, Cli, Host, KernelChoice, OutputPath,
    Precision,
};
use rayon_gemm::text::append_decimal;

const HOST: Host = Host {
    parallelism: 8,
    metal: false,
};

const MAC: Host = Host {
    parallelism: 8,
    metal: true,
};

fn destination(path: &str, is_directory: bool) -> OutputPath {
    let path = Path::new(path);
    OutputPath {
        is_empty: path.as_os_str().is_empty(),
        has_file_name: path.file_name().is_some(),
        has_parent: path
            .parent()
            .is_some_and(|parent| !parent.as_os_str().is_empty()),
        is_directory,
        extension: path
            .extension()
            .map(|extension| extension.to_string_lossy().into_owned()),
        shown: path.display().to_string(),
        shown_without_extension: path.with_extension("").display().to_string(),
    }
}

fn options() -> Cli {
    Cli {
        sizes: Vec::new(),
        threads: Vec::new(),
        kernel: Vec::new(),
        precision: Vec::new(),
        repetitions: 1,
        block_size: 64,
        output: destination("data/f16", false),
        no_progress: false,
    }
}

#[test]
fn empty_sweeps_expand_to_defaults() {
    let plan = options()
        .into_plan(HOST)
        .expect("default plan should be valid");

    assert_eq!(plan.sizes, [64, 128, 256, 512, 1024, 2048, 4096]);
    assert!(plan.threads.contains(&1));
    assert_eq!(plan.kernels.first(), Some(&KernelChoice::Naive));
    assert_eq!(plan.kernels.last(), Some(&KernelChoice::StaticTiled));
    assert_eq!(plan.precisions, [Precision::F32]);
    assert!(!plan.no_progress);
    assert!(plan.total_configurations() > 0);
    assert_eq!(plan.outputs.csv, "csv");
    assert_eq!(plan.outputs.json, "json");
    assert!(plan.outputs.create_parent);

    let plan = options()
        .into_plan(MAC)
        .expect("default plan should be valid");
    assert_eq!(plan.kernels.last(), Some(&KernelChoice::Mps));
}

#[test]
fn every_kernel_is_a_default() {
    let everywhere = [
        KernelChoice::Naive,
        KernelChoice::Ikj,
        KernelChoice::Tiled,
        KernelChoice::RayonIkj,
        KernelChoice::RayonTiled,
        KernelChoice::StaticIkj,
        KernelChoice::StaticTiled,
    ];
    let plan = options().into_plan(HOST).expect("plan should be valid");
    assert_eq!(plan.kernels, everywhere);
    assert_eq!(plan.threads, [1, 2, 4, 8]);

    let mut double = options();
    double.precision = vec![Precision::F32, Precision::F64];
    let plan = double.into_plan(MAC).expect("plan should be valid");
    assert_eq!(plan.kernels, everywhere);
}

#[test]
fn precision_flag_accepts_a_comma_delimited_sweep() {
    let mut cli = options();
    cli.precision = vec![Precision::F16, Precision::F64];
    let plan = cli.into_plan(HOST).expect("plan should be valid");

    assert_eq!(plan.precisions, [Precision::F16, Precision::F64]);
}

#[test]
fn static_threads_above_the_matrix_dimension_are_rejected_before_running() {
    let mut cli = options();
    cli.sizes = vec![8, 64];
    cli.threads = vec![4, 16];
    cli.kernel = vec![KernelChoice::StaticIkj];
    let error = cli
        .into_plan(HOST)
        .expect_err("more static threads than rows must be rejected");

    assert!(error.contains("--threads 16 exceeds --sizes 8"));
    assert_eq!(
        error,
        "static kernels need at least one row per thread; --threads 16 exceeds --sizes 8"
    );
}

#[test]
fn static_threads_are_tested_for_static_kernels_only() {
    let sizes = [8, 64];
    let threads = [4, 16];
    assert!(validate_static_threads(&[KernelChoice::RayonIkj], &threads, &sizes).is_ok());
    assert!(validate_static_threads(&[KernelChoice::StaticTiled], &threads, &sizes).is_err());
    assert!(validate_static_threads(&[KernelChoice::StaticTiled], &[8, 1], &sizes).is_ok());
    assert!(validate_static_threads(&[KernelChoice::StaticIkj], &[], &sizes).is_ok());
    assert!(validate_static_threads(&[KernelChoice::StaticIkj], &threads, &[]).is_ok());
}

#[test]
fn output_with_extension_is_rejected() {
    let error = validate_and_resolve_output_paths(&destination("results.csv", false))
        .expect_err("extension should be rejected");
    assert!(error.contains("must not include a file extension"));
    assert_eq!(
        error,
        "--output must not include a file extension (got '.csv'); specify the path prefix \
         (e.g. 'results') to generate both .csv and .json files"
    );

    let error = validate_and_resolve_output_paths(&destination("data/f16.json", false))
        .expect_err("extension should be rejected");
    assert!(error.contains("must not include a file extension"));
}

#[test]
fn output_with_an_extension_that_is_not_text_is_rejected() {
    let mut path = destination("data/f16", false);
    path.extension = Some("\u{fffd}".to_owned());
    path.shown = "data/f16.\u{fffd}".to_owned();
    let error =
        validate_and_resolve_output_paths(&path).expect_err("extension should be rejected");
    assert_eq!(
        error,
        "--output must not include a file extension (got '.\u{fffd}'); specify the path prefix \
         (e.g. 'data/f16') to generate both .csv and .json files"
    );
}

#[test]
fn output_as_existing_directory_is_rejected() {
    let error = validate_and_resolve_output_paths(&destination("data/existing_dir", true))
        .expect_err("existing directory must be rejected");
    assert!(error.contains("is an existing directory"));
    assert_eq!(
        error,
        "output path 'data/existing_dir' is an existing directory; --output must specify a \
         destination prefix without extension (e.g. 'data/existing_dir/results')"
    );
}

#[test]
fn output_needs_a_file_name() {
    for path in ["", "..", "/"] {
        let error = validate_and_resolve_output_paths(&destination(path, true))
            .expect_err("a file name is missing");
        assert_eq!(
            error,
            "--output must include a destination prefix (e.g. 'data/f16')"
        );
    }
}

#[test]
fn a_bare_prefix_has_no_directory_to_create() {
    let outputs = validate_and_resolve_output_paths(&destination("results", false))
        .expect("prefix should be valid");
    assert!(!outputs.create_parent);
}

#[test]
fn failures_to_open_are_reported_with_their_path() {
    assert_eq!(
        output_directory_error("a/b", "permission denied"),
        "cannot create output directory 'a/b': permission denied"
    );
    assert_eq!(
        output_file_error("a/b.csv", "permission denied"),
        "cannot open output file 'a/b.csv': permission denied"
    );
}

#[test]
fn no_progress_flag_is_parsed() {
    let mut cli = options();
    cli.no_progress = true;
    let plan = cli.into_plan(HOST).expect("plan should be valid");

    assert!(plan.no_progress);
}

#[test]
fn total_configurations_counts_worker_and_single_thread_kernels_correctly() {
    let mut cli = options();
    cli.sizes = vec![64, 128];
    cli.precision = vec![Precision::F32, Precision::F64];
    cli.kernel = vec![KernelChoice::Naive, KernelChoice::RayonIkj];
    cli.threads = vec![1, 2, 4];
    let plan = cli.into_plan(HOST).expect("plan should be valid");

    // 2 precisions * 2 sizes * (1 for naive + 3 for rayon-ikj) = 2 * 2 * 4 = 16
    assert_eq!(plan.total_configurations(), 16);
}

#[test]
fn mps_parses_as_a_kernel_choice() {
    let mut cli = options();
    cli.kernel = vec![KernelChoice::Mps];
    let plan = cli.into_plan(MAC).expect("mps plan should be valid");

    assert_eq!(plan.kernels, [KernelChoice::Mps]);
    assert_eq!(plan.total_configurations(), 7); // 7 default sizes * 1 precision * 1 config
}

#[test]
fn mps_with_f64_precision_is_rejected_before_running() {
    let mut cli = options();
    cli.kernel = vec![KernelChoice::Mps];
    cli.precision = vec![Precision::F64];
    let error = cli
        .into_plan(MAC)
        .expect_err("mps with f64 must be rejected");

    assert!(error.contains("f64 is not supported by Metal Performance Shaders"));
    assert_eq!(
        validate_mps_precision(&[KernelChoice::Mps], &[Precision::F16, Precision::F64]),
        Err(
            "MPS GEMM only supports f16 and f32 precisions; f64 is not supported by Metal \
             Performance Shaders"
                .to_owned()
        )
    );
    assert!(validate_mps_precision(&[KernelChoice::Mps], &[Precision::F16]).is_ok());
    assert!(validate_mps_precision(&[KernelChoice::Ikj], &[Precision::F64]).is_ok());
}

#[test]
fn zeros_are_rejected_one_by_one() {
    let mut cli = options();
    assert!(validate_cli(&cli).is_ok());
    cli.threads = vec![1, 0];
    assert_eq!(
        validate_cli(&cli),
        Err("all --threads values must be greater than zero".to_owned())
    );
    cli.sizes = vec![0, 8];
    assert_eq!(
        validate_cli(&cli),
        Err("all --sizes values must be greater than zero".to_owned())
    );
    cli.block_size = 0;
    assert_eq!(
        validate_cli(&cli),
        Err("--block-size must be greater than zero".to_owned())
    );
    cli.repetitions = 0;
    assert_eq!(
        validate_cli(&cli),
        Err("--repetitions must be greater than zero".to_owned())
    );
}

#[test]
fn the_sweep_is_rejected_before_the_destination() {
    let mut cli = options();
    cli.sizes = vec![2];
    cli.threads = vec![3];
    cli.output = destination("results.csv", false);
    let error = cli.into_plan(HOST).expect_err("plan should be rejected");
    assert_eq!(
        error,
        "static kernels need at least one row per thread; --threads 3 exceeds --sizes 2"
    );

    let mut cli = options();
    cli.output = destination("results.csv", false);
    let error = cli.into_plan(HOST).expect_err("plan should be rejected");
    assert!(error.contains("must not include a file extension"));
}

#[test]
fn default_worker_counts_are_powers_of_two() {
    assert_eq!(default_thread_counts(1), [1]);
    assert_eq!(default_thread_counts(2), [1, 2]);
    assert_eq!(default_thread_counts(8), [1, 2, 4, 8]);
    assert_eq!(default_thread_counts(12), [1, 2, 4, 8]);
    assert_eq!(default_thread_counts(3), [1, 2]);
    let widest = default_thread_counts(usize::MAX);
    assert_eq!(widest.len(), usize::BITS as usize);
    assert_eq!(widest.last(), Some(&(usize::MAX / 2 + 1)));
}

#[test]
fn labels_are_those_of_the_report() {
    assert_eq!(KernelChoice::Naive.label(), "naive-ijk");
    assert_eq!(KernelChoice::RayonTiled.label(), "rayon-tiled");
    assert_eq!(KernelChoice::Mps.label(), "mps");
    assert_eq!(Precision::F16.label(), "f16");
    assert_eq!(Precision::F32.label(), "f32");
    assert_eq!(Precision::F64.label(), "f64");
    assert!(KernelChoice::StaticTiled.uses_workers());
    assert!(!KernelChoice::Tiled.uses_workers());
    assert!(!KernelChoice::Mps.uses_workers());
}

#[test]
fn numbers_are_written_in_decimal() {
    for value in [0, 7, 10, 908, 1234567890, usize::MAX] {
        let mut text = "n = ".to_owned();
        append_decimal(&mut text, value);
        assert_eq!(text, format!("n = {value}"));
    }
}
