use stoc::{RateMatrix, ShapeMismatch};

#[test]
fn matrix_holds_cells_row_by_row() {
    let matrix = RateMatrix::from_shape_vec(2, 3, vec![1, 2, 3, 4, 5, 6]).unwrap();
    assert_eq!(matrix.nrows(), 2);
    assert_eq!(matrix.ncols(), 3);
    assert_eq!(matrix.get(0, 0), 1);
    assert_eq!(matrix.get(0, 2), 3);
    assert_eq!(matrix.get(1, 0), 4);
    assert_eq!(matrix.get(1, 2), 6);
    assert!(!matrix.is_square());
}

#[test]
fn matrix_keeps_extreme_rates() {
    let matrix = RateMatrix::from_shape_vec(1, 2, vec![i64::MIN, i64::MAX]).unwrap();
    assert_eq!(matrix.get(0, 0), i64::MIN);
    assert_eq!(matrix.get(0, 1), i64::MAX);
}

#[test]
fn square_matrix_is_square() {
    let matrix = RateMatrix::from_shape_vec(2, 2, vec![-1, 1, 2, -2]).unwrap();
    assert!(matrix.is_square());
}

#[test]
fn too_few_cells_are_refused() {
    let refused = RateMatrix::from_shape_vec(2, 2, vec![1, 2, 3]).unwrap_err();
    assert_eq!(refused, ShapeMismatch { rows: 2, cols: 2, cells: 3 });
}

#[test]
fn too_many_cells_are_refused() {
    let refused = RateMatrix::from_shape_vec(2, 2, vec![1, 2, 3, 4, 5]).unwrap_err();
    assert_eq!(refused, ShapeMismatch { rows: 2, cols: 2, cells: 5 });
}

#[test]
fn empty_matrix_is_made_of_no_cells() {
    let matrix = RateMatrix::from_shape_vec(0, 0, vec![]).unwrap();
    assert_eq!(matrix.nrows(), 0);
    assert_eq!(matrix.ncols(), 0);
    assert!(matrix.is_square());
}

#[test]
fn matrix_without_rows_keeps_its_width() {
    let matrix = RateMatrix::from_shape_vec(0, 5, vec![]).unwrap();
    assert_eq!(matrix.nrows(), 0);
    assert_eq!(matrix.ncols(), 5);
    assert!(!matrix.is_square());
}

#[test]
fn width_beyond_addressing_is_refused() {
    let refused = RateMatrix::from_shape_vec(0, usize::MAX, vec![]).unwrap_err();
    assert_eq!(refused, ShapeMismatch { rows: 0, cols: usize::MAX, cells: 0 });
}

#[test]
fn copy_of_matrix_holds_the_same_rates() {
    let matrix = RateMatrix::from_shape_vec(2, 3, vec![1, 2, 3, 4, 5, 6]).unwrap();
    let copy = matrix.clone();
    assert_eq!(copy.nrows(), 2);
    assert_eq!(copy.ncols(), 3);
    for i in 0..2 {
        for j in 0..3 {
            assert_eq!(copy.get(i, j), matrix.get(i, j));
        }
    }
    assert_eq!(copy.get(1, 1), 5);
}
