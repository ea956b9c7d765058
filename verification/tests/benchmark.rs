use rayon_gemm::benchmark::{add_run, benchmark_inputs, CpuKernel, Run, RunSchedule};
use rayon_gemm::cli::{BenchmarkPlan, Cli, Host, KernelChoice, OutputPath, Precision};
use rayon_gemm::kernels::common::DimensionError;
use rayon_gemm::kernels::mps::{MpsDataType, MpsLayout};
use rayon_gemm::kernels::KernelError;
use rayon_gemm::{GemmKernel, Matrix};

fn plan() -> BenchmarkPlan {
    Cli {
        sizes: vec![8, 16],
        threads: vec![1, 4],
        kernel: vec![KernelChoice::Naive, KernelChoice::StaticIkj, KernelChoice::Ikj],
        precision: vec![Precision::F64, Precision::F16],
        repetitions: 3,
        block_size: 4,
        output: OutputPath {
            is_empty: false,
            has_file_name: true,
            has_parent: false,
            is_directory: false,
            extension: None,
            shown: "results".to_owned(),
            shown_without_extension: "results".to_owned(),
        },
        no_progress: true,
    }
    .into_plan(Host {
        parallelism: 1,
        metal: false,
    })
    .expect("plan should be valid")
}

#[test]
fn sweeps_go_by_precision_size_kernel_and_threads() {
    let plan = plan();
    let batches = plan.batches();
    let order: Vec<(Precision, usize)> = batches.iter().map(|b| (b.precision, b.n)).collect();
    assert_eq!(
        order,
        [
            (Precision::F64, 8),
            (Precision::F64, 16),
            (Precision::F16, 8),
            (Precision::F16, 16),
        ]
    );
    for batch in &batches {
        let measured: Vec<(KernelChoice, usize)> = batch
            .configurations
            .iter()
            .map(|c| (c.kernel, c.threads))
            .collect();
        assert_eq!(
            measured,
            [
                (KernelChoice::Naive, 1),
                (KernelChoice::StaticIkj, 1),
                (KernelChoice::StaticIkj, 4),
                (KernelChoice::Ikj, 1),
            ]
        );
        for configuration in &batch.configurations {
            assert_eq!(configuration.precision, batch.precision);
            assert_eq!(configuration.n, batch.n);
        }
    }
    let measured: usize = batches.iter().map(|b| b.configurations.len()).sum();
    assert_eq!(measured, plan.total_configurations());
    assert_eq!(measured, 16);
}

#[test]
fn schedules_warm_up_once_and_then_measure() {
    let mut schedule = RunSchedule::new(3);
    assert_eq!(schedule.advance(), Some(Run::WarmUp));
    assert_eq!(schedule.advance(), Some(Run::Timed));
    assert_eq!(schedule.advance(), Some(Run::Timed));
    assert_eq!(schedule.advance(), Some(Run::Timed));
    assert_eq!(schedule.advance(), None);
    assert_eq!(schedule.advance(), None);
}

#[test]
fn only_timed_runs_are_added_up() {
    let mut schedule = RunSchedule::new(2);
    let mut total = 0;
    for elapsed in [1000, 20, 3] {
        let run = schedule.advance().expect("a run should be due");
        total = add_run(total, run, elapsed);
    }
    assert_eq!(schedule.advance(), None);
    assert_eq!(total, 23);
}

#[test]
fn inputs_are_fractions_below_one() {
    let (lhs, rhs) = benchmark_inputs(3, |numerator, denominator| (numerator, denominator));
    assert_eq!(
        lhs.as_slice(),
        &[
            (0, 23),
            (13, 23),
            (3, 23),
            (17, 23),
            (7, 23),
            (20, 23),
            (11, 23),
            (1, 23),
            (14, 23),
        ]
    );
    assert_eq!(
        rhs.as_slice(),
        &[
            (0, 29),
            (19, 29),
            (9, 29),
            (7, 29),
            (26, 29),
            (16, 29),
            (14, 29),
            (4, 29),
            (23, 29),
        ]
    );
}

fn built(choice: KernelChoice, threads: usize, block_size: usize) -> CpuKernel {
    choice
        .build(threads, block_size)
        .expect("pool should build")
        .expect("the kernel runs on CPUs")
}

#[test]
fn every_choice_builds_its_kernel() {
    let lhs = Matrix::from_vec(2, 2, vec![1u64, 2, 3, 4]);
    let rhs = Matrix::from_vec(2, 2, vec![5u64, 6, 7, 8]);
    for choice in [
        KernelChoice::Naive,
        KernelChoice::Ikj,
        KernelChoice::Tiled,
        KernelChoice::RayonIkj,
        KernelChoice::RayonTiled,
        KernelChoice::StaticIkj,
        KernelChoice::StaticTiled,
    ] {
        let kernel = built(choice, 2, 1);
        assert_eq!(GemmKernel::<u64>::name(&kernel), choice.label());
        assert!(kernel.can_multiply(2));
        let mut output = Matrix::zeros(2, 2);
        kernel.compute(&lhs, &rhs, &mut output);
        assert_eq!(output.as_slice(), &[19, 22, 43, 50]);
    }
    assert!(KernelChoice::Mps
        .build(2, 1)
        .expect("nothing is built")
        .is_none());
}

#[test]
fn choices_ask_only_for_what_they_use() {
    for choice in [KernelChoice::Naive, KernelChoice::Ikj] {
        let kernel = built(choice, 0, 0);
        assert_eq!(GemmKernel::<f32>::name(&kernel), choice.label());
    }
    assert_eq!(GemmKernel::<f32>::name(&built(KernelChoice::Tiled, 0, 2)), "tiled");
    assert_eq!(
        GemmKernel::<f32>::name(&built(KernelChoice::StaticIkj, 2, 0)),
        "static-ikj"
    );
    assert!(KernelChoice::Mps
        .build(0, 0)
        .expect("nothing is built")
        .is_none());
}

#[test]
fn pools_that_cannot_be_built_are_reported() {
    for choice in [
        KernelChoice::RayonIkj,
        KernelChoice::RayonTiled,
        KernelChoice::StaticIkj,
        KernelChoice::StaticTiled,
    ] {
        let unbuilt = rayon::ThreadPoolBuilder::new()
            .num_threads(2)
            .spawn_handler(|_| Err(std::io::Error::other("no threads")))
            .build();
        match choice.on_pool(unbuilt, 4) {
            Err(KernelError::PoolBuild(error)) => {
                assert!(error.to_string().contains("no threads"))
            }
            Ok(_) => panic!("there is no pool to run on"),
        }
    }
}

#[test]
fn kernels_know_what_they_can_multiply() {
    assert!(!built(KernelChoice::StaticIkj, 3, 1).can_multiply(2));
    assert!(!built(KernelChoice::StaticTiled, 3, 1).can_multiply(2));
    assert!(built(KernelChoice::StaticTiled, 3, 1).can_multiply(3));
    assert!(!built(KernelChoice::RayonTiled, 1, usize::MAX).can_multiply(2));
    assert!(built(KernelChoice::RayonTiled, 1, usize::MAX).can_multiply(1));
    assert!(built(KernelChoice::Tiled, 1, usize::MAX).can_multiply(2));
}

#[test]
fn metal_has_no_double_precision() {
    assert_eq!(Precision::F16.mps_data_type(), Some(MpsDataType::Float16));
    assert_eq!(Precision::F32.mps_data_type(), Some(MpsDataType::Float32));
    assert_eq!(Precision::F64.mps_data_type(), None);
}

#[test]
fn metal_buffers_are_packed() {
    let square = Matrix::<f32>::zeros(7, 7);
    let layout = MpsLayout::of(&square, &square, &square, 4).expect("dimensions should agree");
    assert_eq!(
        layout,
        MpsLayout {
            n: 7,
            count: 49,
            byte_len: 196,
            row_bytes: 28,
        }
    );
    let other = Matrix::<f32>::zeros(6, 6);
    assert_eq!(
        MpsLayout::of(&square, &other, &square, 4),
        Err(DimensionError::Inputs)
    );
}
