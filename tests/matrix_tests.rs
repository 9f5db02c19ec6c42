use matrix_grid::{Matrix, MatrixError};
use rand::random;

#[test]
fn test_init() {
    let my_matrix: Matrix<f32> = Matrix::new();
    let my_vector: Vec<Vec<f32>> = vec![Vec::new()];

    println!("{:?}", Matrix::valid_from_vector(&my_vector));
    let another_mat: Matrix<f32> = Matrix::from(my_vector).unwrap();

    println!("my_mat -> {:?}, another one -> {:?}", my_matrix, another_mat);

    assert_eq!(another_mat.as_nested_vec(), vec![vec![]]);
}

#[test]
fn test_push_pop() {
    let mut my_matrix: Matrix<f32> = Matrix::new();

    my_matrix.push_column(vec![2.0, 34.2]).unwrap();
    assert_eq!(my_matrix.as_nested_vec_ref(), &vec![vec![2.0, 34.2]]);

    my_matrix.push_column(vec![4.6, 6.4]).unwrap();
    assert_eq!(my_matrix.as_nested_vec_ref(), &vec![vec![2.0, 34.2], vec![4.6, 6.4]]);

    my_matrix.push_row(vec![5.7, 9.5]).unwrap();
    assert_eq!(my_matrix.as_nested_vec_ref(), &vec![vec![2.0, 34.2, 5.7], vec![4.6, 6.4, 9.5]]);

    assert_eq!(my_matrix.pop_columns(), Some(vec![4.6, 6.4, 9.5]));
    assert_eq!(my_matrix.as_nested_vec_ref(), &vec![vec![2.0, 34.2, 5.7]]);

    assert_eq!(my_matrix.pop_rows(), Some(vec![5.7]));
    assert_eq!(my_matrix.as_nested_vec(), vec![vec![2.0, 34.2]])
}

#[test]
fn test_dot() {
    let my_matrix = Matrix::from(vec![vec![1f32, 4f32, 6f32], vec![3f32, 5f32, 8f32]]).unwrap();
    let another = Matrix::from(vec![vec![3f32, 2f32], vec![5f32, 3f32], vec![7f32, 8f32]]).unwrap();

    let result = my_matrix.dot(&another).unwrap();

    println!("{:?}", result);

    assert_eq!(result.as_nested_vec(), vec![vec![9f32, 22f32, 34f32], vec![14f32, 35f32, 54f32], vec![31f32, 68f32, 106f32]])
}

#[test]
fn test_random() {
    let mat = Matrix::<u8>::legacy_random(30, 35, &|_: f32| random::<u8>() % 30, &|| 2.0f32);
    println!("{:?}", mat);
    assert_eq!(mat.len_cols(), 35);
    assert_eq!(mat.len_rows(), 30);
    assert_eq!(Matrix::valid_from_vector(mat.as_nested_vec_ref()).unwrap(), 30);
}

#[test]
fn from_round_trips_rectangular_lanes() {
    let grid = vec![vec![1i64, 2, 3], vec![4, 5, 6]];
    let m = Matrix::from(grid.clone()).unwrap();
    assert_eq!(m.len_cols(), 2);
    assert_eq!(m.len_rows(), 3);
    assert_eq!(m.as_nested_vec(), grid);
}

#[test]
fn from_round_trips_lanes_without_rows() {
    let grid: Vec<Vec<i64>> = vec![vec![], vec![], vec![]];
    let m = Matrix::from(grid.clone()).unwrap();
    assert_eq!(m.len_cols(), 3);
    assert_eq!(m.len_rows(), 0);
    assert_eq!(m.as_nested_vec(), grid);
}

#[test]
fn from_rejects_ragged_lanes() {
    let r = Matrix::from(vec![vec![1i64, 2, 3], vec![4, 5, 6], vec![7]]);
    assert_eq!(r.unwrap_err(), MatrixError::Shape { expected: 3, given: 1 });
}

#[test]
fn from_rejects_no_lanes() {
    let r = Matrix::<i64>::from(Vec::new());
    assert_eq!(r.unwrap_err(), MatrixError::NoLanes);
}

#[test]
fn valid_from_vector_reports_common_length() {
    assert_eq!(Matrix::valid_from_vector(&vec![vec![1u8, 2], vec![3, 4], vec![5, 6]]), Ok(2));
    assert_eq!(Matrix::valid_from_vector(&vec![vec![7u8, 8, 9]]), Ok(3));
}

#[test]
fn valid_from_vector_tells_mismatch_from_no_lanes() {
    assert_eq!(
        Matrix::valid_from_vector(&vec![vec![1u8, 2], vec![3, 4], vec![5]]),
        Err(MatrixError::Shape { expected: 2, given: 1 })
    );
    assert_eq!(Matrix::valid_from_vector(&vec![vec![1u8], vec![]]), Err(MatrixError::Shape { expected: 1, given: 0 }));
    assert_eq!(Matrix::<u8>::valid_from_vector(&Vec::new()), Err(MatrixError::NoLanes));
    assert_eq!(Matrix::valid_from_vector(&vec![Vec::<u8>::new()]), Ok(0));
}

#[test]
fn shape_follows_pushes_and_pops() {
    let mut m: Matrix<i32> = Matrix::new();
    m.push_column(vec![1, 2, 3]).unwrap();
    assert_eq!((m.len_rows(), m.len_cols()), (3, 1));
    m.push_column(vec![4, 5, 6]).unwrap();
    assert_eq!((m.len_rows(), m.len_cols()), (3, 2));
    m.push_row(vec![7, 8]).unwrap();
    assert_eq!((m.len_rows(), m.len_cols()), (4, 2));
    assert_eq!(m.as_nested_vec_ref().len(), m.len_cols());
    assert_eq!(m.as_nested_vec_ref()[0].len(), m.len_rows());
    assert_eq!(m.pop_rows(), Some(vec![7, 8]));
    assert_eq!((m.len_rows(), m.len_cols()), (3, 2));
    assert_eq!(m.pop_columns(), Some(vec![4, 5, 6]));
    assert_eq!((m.len_rows(), m.len_cols()), (3, 1));
    assert_eq!(m.pop_columns(), Some(vec![1, 2, 3]));
    assert_eq!((m.len_rows(), m.len_cols()), (0, 0));
    assert_eq!(m.pop_columns(), None);
    assert_eq!(m.pop_rows(), None);
}

#[test]
fn push_row_rejects_wrong_length() {
    let mut m = Matrix::from(vec![vec![1i32], vec![2]]).unwrap();
    assert_eq!(m.push_row(vec![1, 2, 3]), Err(MatrixError::Shape { expected: 2, given: 3 }));
    assert_eq!(m.as_nested_vec_ref(), &vec![vec![1], vec![2]]);
    assert_eq!(m.len_rows(), 1);
}

#[test]
fn push_row_counts_one_row_per_call() {
    let mut m = Matrix::from(vec![vec![1i32], vec![2], vec![3]]).unwrap();
    m.push_row(vec![4, 5, 6]).unwrap();
    assert_eq!(m.len_rows(), 2);
    assert_eq!(m.row(1), Ok(vec![4, 5, 6]));
}

#[test]
fn push_column_rejects_wrong_length() {
    let mut m = Matrix::from(vec![vec![1i32, 2]]).unwrap();
    assert_eq!(m.push_column(vec![3]), Err(MatrixError::Shape { expected: 2, given: 1 }));
    assert_eq!(m.len_cols(), 1);
}

#[test]
fn equality_is_reflexive_and_symmetric() {
    let a = Matrix::from(vec![vec![1i32, 2], vec![3, 4]]).unwrap();
    let b = Matrix::from(vec![vec![1i32, 2], vec![3, 4]]).unwrap();
    let c = Matrix::from(vec![vec![1i32, 2], vec![3, 5]]).unwrap();
    assert!(a == a);
    assert!(a == b && b == a);
    assert!(a != c && c != a);
}

#[test]
fn equality_needs_same_shape() {
    let wide = Matrix::from(vec![vec![1i32, 2], vec![3, 4], vec![5, 6]]).unwrap();
    let tall = Matrix::from(vec![vec![1i32, 2, 3], vec![4, 5, 6]]).unwrap();
    assert_eq!((wide.len_rows(), wide.len_cols()), (2, 3));
    assert_eq!((tall.len_rows(), tall.len_cols()), (3, 2));
    assert!(wide != tall);
}

#[test]
fn dot_rejects_incompatible_shapes() {
    let a = Matrix::from(vec![vec![1i64, 2], vec![3, 4]]).unwrap();
    let b = Matrix::from(vec![vec![1i64, 2, 3]]).unwrap();
    assert_eq!(a.dot(&b).unwrap_err(), MatrixError::Shape { expected: 2, given: 3 });
}

#[test]
fn dot_has_rows_of_first_and_columns_of_second() {
    let a = Matrix::from(vec![vec![1i64, 2, 3], vec![4, 5, 6]]).unwrap();
    let b = Matrix::from(vec![vec![1i64, 0], vec![0, 1], vec![1, 1], vec![2, 0]]).unwrap();
    let p = a.dot(&b).unwrap();
    assert_eq!((p.len_rows(), p.len_cols()), (3, 4));
    assert_eq!(p.as_nested_vec(), vec![vec![1, 2, 3], vec![4, 5, 6], vec![5, 7, 9], vec![2, 4, 6]]);
}

#[test]
fn dot_of_integers_matches_worked_example() {
    let a = Matrix::from(vec![vec![1i64, 4, 6], vec![3, 5, 8]]).unwrap();
    let b = Matrix::from(vec![vec![3i64, 2], vec![5, 3], vec![7, 8]]).unwrap();
    let p = a.dot(&b).unwrap();
    assert_eq!(p.as_nested_vec(), vec![vec![9, 22, 34], vec![14, 35, 54], vec![31, 68, 106]]);
}

#[test]
fn dot_of_empty_matrices_is_empty() {
    let a: Matrix<i64> = Matrix::new();
    let b: Matrix<i64> = Matrix::new();
    let p = a.dot(&b).unwrap();
    assert_eq!((p.len_rows(), p.len_cols()), (0, 0));
}

#[test]
fn vector_dot_sums_products() {
    assert_eq!(Matrix::<i64>::vector_dot(vec![1, 2, 3], vec![4, 5, 6]), Ok(32));
    assert_eq!(Matrix::<i64>::vector_dot(Vec::new(), Vec::new()), Ok(0));
    assert_eq!(
        Matrix::<i64>::vector_dot(vec![1, 2], vec![1]),
        Err(MatrixError::Shape { expected: 2, given: 1 })
    );
}

#[test]
fn row_and_column_copy_elements() {
    let m = Matrix::from(vec![vec![1u16, 2, 3], vec![4, 5, 6]]).unwrap();
    assert_eq!(m.row(0), Ok(vec![1, 4]));
    assert_eq!(m.row(2), Ok(vec![3, 6]));
    assert_eq!(m.column(1), Ok(vec![4, 5, 6]));
    assert_eq!(m.row(3), Err(MatrixError::Index { index: 3, len: 3 }));
    assert_eq!(m.column(2), Err(MatrixError::Index { index: 2, len: 2 }));
}

#[test]
fn lane_and_set_check_bounds() {
    let mut m = Matrix::from(vec![vec![1u16, 2], vec![3, 4]]).unwrap();
    assert_eq!(m.lane(1), Ok(&vec![3, 4]));
    assert_eq!(m.lane(2), Err(MatrixError::Index { index: 2, len: 2 }));
    m.set(1, 0, 9).unwrap();
    assert_eq!(m.as_nested_vec_ref(), &vec![vec![1, 2], vec![9, 4]]);
    assert_eq!(m.set(2, 0, 7), Err(MatrixError::Index { index: 2, len: 2 }));
    assert_eq!(m.set(0, 5, 7), Err(MatrixError::Index { index: 5, len: 2 }));
}

#[test]
fn zeros_fill_with_default() {
    let z = Matrix::<u32>::zeros(2, 3);
    assert_eq!(z.as_nested_vec(), vec![vec![0, 0], vec![0, 0], vec![0, 0]]);
    let y = Matrix::<u32>::zeros_no_copy(3, 1);
    assert_eq!((y.len_rows(), y.len_cols()), (3, 1));
    assert_eq!(y.as_nested_vec(), vec![vec![0, 0, 0]]);
    let e = Matrix::<u32>::zeros(4, 0);
    assert_eq!((e.len_rows(), e.len_cols()), (0, 0));
}

#[test]
fn random_fill_calls_in_lane_order() {
    let counter = std::cell::Cell::new(0u32);
    let m = Matrix::<u32>::legacy_random(2, 3, &|s: u32| s * 10, &|| {
        counter.set(counter.get() + 1);
        counter.get()
    });
    assert_eq!(m.as_nested_vec(), vec![vec![10, 20], vec![30, 40], vec![50, 60]]);
}

#[test]
fn default_is_empty() {
    let m: Matrix<u8> = Matrix::default();
    assert_eq!((m.len_rows(), m.len_cols()), (0, 0));
    assert!(m == Matrix::new());
}
