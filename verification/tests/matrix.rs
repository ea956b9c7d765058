use rayon_gemm::Matrix;

#[test]
fn storage_is_row_major() {
    let matrix = Matrix::from_fn(2, 3, |row, col| row * 10 + col);
    assert_eq!(matrix.as_slice(), &[0, 1, 2, 10, 11, 12]);
    assert_eq!(matrix.row(1), &[10, 11, 12]);
}

#[test]
fn from_vec_keeps_the_storage() {
    let matrix = Matrix::from_vec(2, 3, vec![1, 2, 3, 4, 5, 6]);
    assert_eq!(matrix.rows(), 2);
    assert_eq!(matrix.cols(), 3);
    assert!(!matrix.is_square());
    assert_eq!(matrix.as_slice(), &[1, 2, 3, 4, 5, 6]);
    assert_eq!(*matrix.get(0, 2), 3);
    assert_eq!(*matrix.get(1, 0), 4);
}

#[test]
fn from_fn_evaluates_every_position_once_in_order() {
    let mut calls = 0;
    let matrix = Matrix::from_fn(2, 2, |_, _| {
        calls += 1;
        calls
    });
    assert_eq!(matrix.as_slice(), &[1, 2, 3, 4]);
    assert!(matrix.is_square());
}

#[test]
fn zeros_are_defaults() {
    let matrix: Matrix<u64> = Matrix::zeros(2, 2);
    assert_eq!(matrix.as_slice(), &[0, 0, 0, 0]);
    let empty: Matrix<f32> = Matrix::zeros(0, 5);
    assert_eq!(empty.as_slice().len(), 0);
    assert_eq!(empty.cols(), 5);
}

#[test]
fn rows_are_written_in_place() {
    let mut matrix = Matrix::from_vec(3, 2, vec![0; 6]);
    matrix.row_mut(1)[0] = 7;
    matrix.row_mut(2)[1] = 9;
    matrix.as_mut_slice()[0] = 1;
    assert_eq!(matrix.as_slice(), &[1, 0, 7, 0, 0, 9]);
    assert_eq!(matrix.rows(), 3);
    assert_eq!(matrix.cols(), 2);
    assert_eq!(matrix.as_slice().len(), matrix.rows() * matrix.cols());
}

#[test]
fn clones_are_equal_and_independent() {
    let original = Matrix::from_vec(1, 2, vec![3, 4]);
    let mut copy = original.clone();
    assert!(copy == original);
    copy.row_mut(0)[1] = 5;
    assert!(copy != original);
    assert_eq!(original.as_slice(), &[3, 4]);
}

#[test]
fn debug_output_names_every_field() {
    let matrix = Matrix::from_vec(1, 2, vec![3, 4]);
    assert_eq!(
        format!("{matrix:?}"),
        "Matrix { rows: 1, cols: 2, data: [3, 4] }"
    );
}
