use half::f16;
use rayon_gemm::cli::KernelChoice;
use rayon_gemm::kernels::common::{assert_gemm_dimensions, DimensionError};
use rayon_gemm::kernels::static_threads::static_row_counts;
use rayon_gemm::kernels::{
    IkjGemm, NaiveGemm, Pooled, RayonIkjGemm, RayonTiledGemm, StaticIkjGemm, StaticTiledGemm,
    TiledGemm,
};
use rayon_gemm::{Element, GemmKernel, Matrix};

trait Float: Element {
    const EPSILON: f64;

    fn from_f64(value: f64) -> Self;

    fn to_f64(self) -> f64;
}

impl Float for f16 {
    const EPSILON: f64 = 0.0009765625;

    fn from_f64(value: f64) -> Self {
        f16::from_f64(value)
    }

    fn to_f64(self) -> f64 {
        f16::to_f64(self)
    }
}

impl Float for f32 {
    const EPSILON: f64 = f32::EPSILON as f64;

    fn from_f64(value: f64) -> Self {
        value as f32
    }

    fn to_f64(self) -> f64 {
        self as f64
    }
}

impl Float for f64 {
    const EPSILON: f64 = f64::EPSILON;

    fn from_f64(value: f64) -> Self {
        value
    }

    fn to_f64(self) -> f64 {
        self
    }
}

fn inputs<T: Float>(n: usize) -> (Matrix<T>, Matrix<T>) {
    let lhs = Matrix::from_fn(n, n, |row, col| {
        T::from_f64(((row * 17 + col * 13) % 23) as f64 / 23.0)
    });
    let rhs = Matrix::from_fn(n, n, |row, col| {
        T::from_f64(((row * 7 + col * 19) % 29) as f64 / 29.0)
    });
    (lhs, rhs)
}

fn assert_close<T: Float>(actual: &Matrix<T>, expected: &Matrix<T>) {
    assert_eq!(actual.as_slice().len(), expected.as_slice().len());
    for (index, (&actual, &expected)) in actual
        .as_slice()
        .iter()
        .zip(expected.as_slice())
        .enumerate()
    {
        let (actual, expected) = (actual.to_f64(), expected.to_f64());
        let tolerance = 8.0 * T::EPSILON * expected.abs().max(1.0);
        assert!(
            (actual - expected).abs() <= tolerance,
            "element {index}: expected {expected}, got {actual} (tolerance {tolerance:e})"
        );
    }
}

fn every_kernel<T: Element>(n: usize) -> Vec<Box<dyn GemmKernel<T>>> {
    let mut kernels: Vec<Box<dyn GemmKernel<T>>> = vec![
        Box::new(IkjGemm),
        Box::new(TiledGemm::new(3)),
        Box::new(RayonIkjGemm),
        Box::new(RayonTiledGemm::new(3)),
    ];
    // Every static thread count up to `n`, including uneven row splits.
    for threads in 1..=n {
        kernels.push(Box::new(
            StaticIkjGemm::new(threads).expect("static thread pool should build"),
        ));
        kernels.push(Box::new(
            StaticTiledGemm::new(threads, 3).expect("static tiled thread pool should build"),
        ));
    }
    kernels
}

fn every_kernel_matches_naive<T: Float>() {
    let n = 7;
    let (lhs, rhs) = inputs::<T>(n);
    let mut expected = Matrix::zeros(n, n);
    NaiveGemm.compute(&lhs, &rhs, &mut expected);

    for kernel in every_kernel::<T>(n) {
        let mut actual = Matrix::zeros(n, n);
        kernel.compute(&lhs, &rhs, &mut actual);
        assert_close(&actual, &expected);
    }
}

#[test]
fn every_kernel_matches_naive_on_a_non_tile_aligned_matrix() {
    every_kernel_matches_naive::<f16>();
    every_kernel_matches_naive::<f32>();
    every_kernel_matches_naive::<f64>();
}

fn every_kernel_agrees_exactly<T: Float + PartialEq>() {
    let n = 7;
    let (lhs, rhs) = inputs::<T>(n);
    let mut expected = Matrix::zeros(n, n);
    NaiveGemm.compute(&lhs, &rhs, &mut expected);
    for kernel in every_kernel::<T>(n) {
        let mut actual = Matrix::zeros(n, n);
        kernel.compute(&lhs, &rhs, &mut actual);
        assert!(actual == expected, "{} differs", kernel.name());
        kernel.compute(&lhs, &rhs, &mut actual);
        assert!(actual == expected, "{} is not repeatable", kernel.name());
    }
}

#[test]
fn every_kernel_agrees_exactly_on_every_precision() {
    every_kernel_agrees_exactly::<f16>();
    every_kernel_agrees_exactly::<f32>();
    every_kernel_agrees_exactly::<f64>();
}

fn identity_keeps_the_other_factor<T: Float + PartialEq>() {
    let n = 7;
    let identity = Matrix::from_fn(n, n, |row, col| {
        T::from_f64(if row == col { 1.0 } else { 0.0 })
    });
    let (other, _) = inputs::<T>(n);
    for kernel in every_kernel::<T>(n) {
        let mut output = Matrix::zeros(n, n);
        kernel.compute(&identity, &other, &mut output);
        assert!(output == other, "{} changes the factor", kernel.name());
    }
}

#[test]
fn the_identity_keeps_the_other_factor() {
    identity_keeps_the_other_factor::<f16>();
    identity_keeps_the_other_factor::<f32>();
    identity_keeps_the_other_factor::<f64>();
}

#[test]
fn integer_products_are_exact() {
    let lhs = Matrix::from_vec(2, 2, vec![1u64, 2, 3, 4]);
    let rhs = Matrix::from_vec(2, 2, vec![5u64, 6, 7, 8]);
    let mut kernels = every_kernel::<u64>(2);
    kernels.push(Box::new(NaiveGemm));
    for kernel in kernels {
        let mut output = Matrix::from_vec(2, 2, vec![99u64; 4]);
        kernel.compute(&lhs, &rhs, &mut output);
        assert_eq!(output.as_slice(), &[19, 22, 43, 50]);
    }
}

#[test]
fn outputs_are_overwritten() {
    let identity = Matrix::from_fn(5, 5, |row, col| i32::from(row == col));
    let other = Matrix::from_fn(5, 5, |row, col| row as i32 * 10 - col as i32);
    for kernel in every_kernel::<i32>(5) {
        let mut output = Matrix::from_vec(5, 5, vec![-7; 25]);
        kernel.compute(&identity, &other, &mut output);
        assert!(output == other, "{} keeps old values", kernel.name());
        assert_eq!((output.rows(), output.cols()), (5, 5));
        assert_eq!(output.as_slice().len(), 25);
        kernel.compute(&other, &identity, &mut output);
        assert!(output == other, "{} is not repeatable", kernel.name());
    }
}

#[test]
fn blocks_larger_than_the_matrix_are_clamped() {
    let lhs = Matrix::from_vec(2, 2, vec![1u64, 2, 3, 4]);
    let rhs = Matrix::from_vec(2, 2, vec![5u64, 6, 7, 8]);
    let kernels: Vec<Box<dyn GemmKernel<u64>>> = vec![
        Box::new(TiledGemm::new(64)),
        Box::new(TiledGemm::new(usize::MAX)),
        Box::new(RayonTiledGemm::new(64)),
        Box::new(StaticTiledGemm::new(2, 64).expect("pool should build")),
        Box::new(StaticTiledGemm::new(1, usize::MAX).expect("pool should build")),
    ];
    for kernel in kernels {
        let mut output = Matrix::zeros(2, 2);
        kernel.compute(&lhs, &rhs, &mut output);
        assert_eq!(output.as_slice(), &[19, 22, 43, 50]);
    }
}

#[test]
fn a_single_element_is_multiplied() {
    let lhs = Matrix::from_vec(1, 1, vec![6u64]);
    let rhs = Matrix::from_vec(1, 1, vec![7u64]);
    for kernel in every_kernel::<u64>(1) {
        let mut output = Matrix::zeros(1, 1);
        kernel.compute(&lhs, &rhs, &mut output);
        assert_eq!(output.as_slice(), &[42]);
    }
}

#[test]
fn static_schedule_uses_every_thread_with_balanced_rows() {
    assert_eq!(
        static_row_counts(64, 10).into_iter().collect::<Vec<_>>(),
        [7, 7, 7, 7, 6, 6, 6, 6, 6, 6]
    );
    assert_eq!(static_row_counts(64, 12).into_iter().count(), 12);
    assert_eq!(static_row_counts(7, 7).into_iter().collect::<Vec<_>>(), [1; 7]);
}

#[test]
fn static_rows_cover_the_matrix() {
    for n in 1..40 {
        for threads in 1..=n {
            let counts = static_row_counts(n, threads);
            assert_eq!(counts.iter().sum::<usize>(), n);
            assert!(counts.iter().all(|&rows| rows > 0));
        }
    }
}

#[test]
fn pools_have_the_threads_that_were_asked_for() {
    assert_eq!(StaticIkjGemm::new(3).expect("pool should build").threads(), 3);
    assert_eq!(
        StaticTiledGemm::new(5, 8).expect("pool should build").threads(),
        5
    );
}

#[test]
fn pooled_kernels_run_in_their_pool() {
    let lhs = Matrix::from_fn(9, 9, |row, col| (row * 3 + col) as u64);
    let rhs = Matrix::from_fn(9, 9, |row, col| (row + col * 5) as u64);
    let mut expected = Matrix::zeros(9, 9);
    NaiveGemm.compute(&lhs, &rhs, &mut expected);
    let mut output = Matrix::zeros(9, 9);
    let pool = rayon::ThreadPoolBuilder::new().num_threads(2).build();
    let pooled = Pooled::from_build(pool, RayonIkjGemm).expect("pool should build");
    pooled.compute(&lhs, &rhs, &mut output);
    assert!(output == expected);
    assert_eq!(GemmKernel::<u64>::name(&pooled), "rayon-ikj");
    let mut output = Matrix::zeros(9, 9);
    let pool = rayon::ThreadPoolBuilder::new().num_threads(3).build();
    let pooled = Pooled::from_build(pool, RayonTiledGemm::new(4)).expect("pool should build");
    pooled.compute(&lhs, &rhs, &mut output);
    assert!(output == expected);
    assert!(pooled.kernel().can_group(9));
    assert!(!RayonTiledGemm::new(usize::MAX).can_group(2));
}

#[test]
fn names_are_those_of_the_choices() {
    let built: Vec<(Box<dyn GemmKernel<f64>>, KernelChoice)> = vec![
        (Box::new(NaiveGemm), KernelChoice::Naive),
        (Box::new(IkjGemm), KernelChoice::Ikj),
        (Box::new(TiledGemm::new(1)), KernelChoice::Tiled),
        (Box::new(RayonIkjGemm), KernelChoice::RayonIkj),
        (Box::new(RayonTiledGemm::new(1)), KernelChoice::RayonTiled),
        (
            Box::new(StaticIkjGemm::new(1).expect("pool should build")),
            KernelChoice::StaticIkj,
        ),
        (
            Box::new(StaticTiledGemm::new(1, 1).expect("pool should build")),
            KernelChoice::StaticTiled,
        ),
    ];
    for (kernel, choice) in built {
        assert_eq!(kernel.name(), choice.label());
    }
}

#[test]
fn dimensions_are_tested_in_order() {
    let square = |n: usize| Matrix::<f32>::zeros(n, n);
    let check = |lhs: &Matrix<f32>, rhs: &Matrix<f32>, output: &Matrix<f32>| {
        assert_gemm_dimensions(lhs, rhs, output)
    };
    assert_eq!(check(&square(3), &square(3), &square(3)), Ok(()));
    let oblong = Matrix::<f32>::zeros(2, 3);
    assert_eq!(
        check(&oblong, &square(3), &square(2)),
        Err(DimensionError::NotSquare)
    );
    assert_eq!(
        check(&square(0), &square(3), &oblong),
        Err(DimensionError::NotSquare)
    );
    assert_eq!(
        check(&square(0), &square(3), &square(2)),
        Err(DimensionError::Empty)
    );
    assert_eq!(
        check(&square(3), &square(2), &square(2)),
        Err(DimensionError::Inputs)
    );
    assert_eq!(
        check(&square(3), &square(3), &square(2)),
        Err(DimensionError::OutputRows)
    );
    assert_eq!(
        DimensionError::NotSquare.message(),
        "this benchmark supports only square matrices"
    );
    assert_eq!(
        DimensionError::Empty.message(),
        "matrix dimension must be greater than zero"
    );
    assert_eq!(
        DimensionError::Inputs.message(),
        "incompatible GEMM input dimensions"
    );
    assert_eq!(
        DimensionError::OutputRows.message(),
        "output row count is incorrect"
    );
}
