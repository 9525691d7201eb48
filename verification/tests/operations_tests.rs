use matrix_algebra::matrix::Matrix;
use matrix_algebra::text::render;

fn grid(values: Vec<Vec<f64>>, rows: usize, cols: usize) -> Matrix<f64> {
    Matrix { values, rows, cols }
}

#[test]
fn add_leaves_operands_unchanged() {
    let a = grid(vec![vec![2.0, 3.0], vec![4.0, 5.0]], 2, 2);
    let b = grid(vec![vec![-5.0, 2.0], vec![5.0, -1.0]], 2, 2);
    let sum = a.add(&b).expect("same dimensions");
    assert_eq!(sum.values, vec![vec![-3.0, 5.0], vec![9.0, 4.0]]);
    assert_eq!((sum.rows, sum.cols), (2, 2));
    assert_eq!(a.values, vec![vec![2.0, 3.0], vec![4.0, 5.0]]);
    assert_eq!(b.values, vec![vec![-5.0, 2.0], vec![5.0, -1.0]]);
}

#[test]
fn add_of_empty_matrices() {
    let a = grid(vec![], 0, 0);
    let sum = a.add(&a).expect("same dimensions");
    assert!(sum.values.is_empty());
    assert_eq!((sum.rows, sum.cols), (0, 0));
}

#[test]
fn multiply_has_rows_of_left_and_columns_of_right() {
    let a = grid(vec![vec![1.0, 4.0, 2.0]], 1, 3);
    let b = grid(vec![vec![5.0], vec![8.0], vec![1.0]], 3, 1);
    let ab = a.multiply(&b).expect("compatible");
    assert_eq!(ab.values, vec![vec![39.0]]);
    assert_eq!((ab.rows, ab.cols), (1, 1));
    let ba = b.multiply(&a).expect("compatible");
    assert_eq!(
        ba.values,
        vec![vec![5.0, 20.0, 10.0], vec![8.0, 32.0, 16.0], vec![1.0, 4.0, 2.0]]
    );
    assert_eq!((ba.rows, ba.cols), (3, 3));
}

#[test]
fn multiply_over_an_empty_inner_dimension_gives_zeros() {
    let a = grid(vec![vec![], vec![]], 2, 0);
    let b = grid(vec![], 0, 3);
    let p = a.multiply(&b).expect("compatible");
    assert_eq!(p.values, vec![vec![0.0, 0.0, 0.0], vec![0.0, 0.0, 0.0]]);
    assert_eq!((p.rows, p.cols), (2, 3));
}

#[test]
fn multiply_accumulates_from_the_left() {
    let a = grid(vec![vec![1e16, 1.0, -1e16]], 1, 3);
    let b = grid(vec![vec![1.0], vec![1.0], vec![1.0]], 3, 1);
    let p = a.multiply(&b).expect("compatible");
    assert_eq!(p.values, vec![vec![((0.0 + 1e16) + 1.0) + -1e16]]);
    assert_eq!(p.values, vec![vec![0.0]]);
}

#[test]
fn multiply_propagates_nan() {
    let a = grid(vec![vec![1.0, 2.0], vec![3.0, 4.0]], 2, 2);
    let b = grid(vec![vec![f64::NAN, 1.0], vec![1.0, 1.0]], 2, 2);
    let p = a.multiply(&b).expect("compatible");
    assert!(p.values[0][0].is_nan());
    assert!(p.values[1][0].is_nan());
    assert_eq!(p.values[0][1], 3.0);
    assert_eq!(p.values[1][1], 7.0);
}

#[test]
fn multiply_of_integers() {
    let a: Matrix<i64> = Matrix {
        values: vec![vec![4, 3, 8], vec![-1, 0, 3], vec![5, -7, -4]],
        rows: 3,
        cols: 3,
    };
    let b: Matrix<i64> = Matrix { values: vec![vec![4], vec![3], vec![5]], rows: 3, cols: 1 };
    let p = a.multiply(&b).expect("compatible");
    assert_eq!(p.values, vec![vec![65], vec![11], vec![-21]]);
}

#[test]
fn row_scalar_touches_one_row_only() {
    let mut m = grid(vec![vec![1.0, 2.0], vec![3.0, 4.0], vec![5.0, 6.0]], 3, 2);
    m.apply_row_scalar(1, -0.5);
    assert_eq!(m.values, vec![vec![1.0, 2.0], vec![-1.5, -2.0], vec![5.0, 6.0]]);
    assert_eq!((m.rows, m.cols), (3, 2));
}

#[test]
fn row_addition_leaves_the_source_row() {
    let mut m = grid(vec![vec![2.0, 3.0], vec![4.0, 5.0]], 2, 2);
    m.apply_row_addition(1, 0);
    assert_eq!(m.values[0], vec![2.0, 3.0]);
    assert_eq!(m.values[1], vec![6.0, 8.0]);
}

#[test]
fn row_addition_to_itself_doubles_the_row() {
    let mut m = grid(vec![vec![2.0, 3.0], vec![4.0, 5.0]], 2, 2);
    m.apply_row_addition(0, 0);
    assert_eq!(m.values, vec![vec![4.0, 6.0], vec![4.0, 5.0]]);
}

#[test]
fn well_formedness_is_checked() {
    assert!(grid(vec![vec![1.0, 2.0], vec![3.0, 4.0]], 2, 2).is_well_formed());
    assert!(grid(vec![], 0, 7).is_well_formed());
    assert!(!grid(vec![vec![1.0, 2.0], vec![3.0, 4.0]], 3, 2).is_well_formed());
    assert!(!grid(vec![vec![1.0, 2.0], vec![3.0, 4.0]], 2, 3).is_well_formed());
    assert!(!grid(vec![vec![1.0, 2.0], vec![3.0]], 2, 2).is_well_formed());
    assert!(!grid(vec![vec![1.0, 2.0]], 0, 2).is_well_formed());
}

#[test]
fn from_rows_derives_dimensions() {
    let m = Matrix::from_rows(vec![vec![1.0, 2.0, 3.0], vec![4.0, 5.0, 6.0]]).expect("rectangular");
    assert_eq!((m.rows, m.cols), (2, 3));
    assert_eq!(m.values, vec![vec![1.0, 2.0, 3.0], vec![4.0, 5.0, 6.0]]);
    let empty = Matrix::from_rows(Vec::<Vec<f64>>::new()).expect("rectangular");
    assert_eq!((empty.rows, empty.cols), (0, 0));
    let thin = Matrix::from_rows(vec![Vec::<f64>::new(), Vec::new()]).expect("rectangular");
    assert_eq!((thin.rows, thin.cols), (2, 0));
}

#[test]
fn from_rows_rejects_ragged_rows() {
    assert!(Matrix::from_rows(vec![vec![1.0, 2.0], vec![3.0]]).is_none());
    assert!(Matrix::from_rows(vec![vec![], vec![3.0]]).is_none());
}

#[test]
fn render_lays_out_rows_and_entries() {
    let m = grid(vec![vec![2.0, 3.5], vec![-4.0, 5.0]], 2, 2);
    let cells: Vec<Vec<String>> = m
        .values
        .iter()
        .map(|row| row.iter().map(|entry| entry.to_string()).collect())
        .collect();
    assert_eq!(render(&cells), "2  3.5  \n-4  5  \n");
}

#[test]
fn render_of_empty_grids() {
    assert_eq!(render(&Vec::new()), "");
    assert_eq!(render(&vec![Vec::new(), Vec::new()]), "\n\n");
    assert_eq!(render(&vec![vec![String::from("x")]]), "x  \n");
}
