use rescomp::matrix::Matrix;
use rescomp::sparse::SparseMatrix;

#[test]
fn matrix_is_stored_column_by_column() {
    let m = Matrix::from_vec(2, 3, vec![1, 2, 3, 4, 5, 6]);
    assert_eq!(m.nrows(), 2);
    assert_eq!(m.ncols(), 3);
    assert_eq!(m.get(0, 0), 1);
    assert_eq!(m.get(1, 0), 2);
    assert_eq!(m.get(0, 2), 5);
    assert_eq!(m.column(1), vec![3, 4]);
    assert_eq!(m.into_vec(), vec![1, 2, 3, 4, 5, 6]);
}

#[test]
fn matrix_set_and_set_column_touch_one_place() {
    let mut m = Matrix::filled(2, 3, 0);
    m.set(1, 2, 7);
    assert_eq!(m.clone_columns(), vec![vec![0, 0], vec![0, 0], vec![0, 7]]);
    m.set_column(0, &vec![8, 9]);
    assert_eq!(m.clone_columns(), vec![vec![8, 9], vec![0, 0], vec![0, 7]]);
}

#[test]
fn matrix_slices_share_the_columns() {
    let m = Matrix::from_vec(2, 5, (0..10).collect());
    let s = m.columns(1, 3);
    assert_eq!(s.nrows(), 2);
    assert_eq!(s.ncols(), 3);
    assert_eq!(s.get(1, 0), 3);
    assert_eq!(s.column(2), vec![6, 7]);
    let inner = s.columns(1, 2);
    assert_eq!(inner.column(0), vec![4, 5]);
    assert_eq!(inner.share().column(1), vec![6, 7]);
    let owned = inner.to_matrix();
    assert_eq!(owned.into_vec(), vec![4, 5, 6, 7]);
    assert_eq!(m.as_slice().ncols(), 5);
    let empty = m.columns(5, 0);
    assert_eq!(empty.ncols(), 0);
    assert_eq!(empty.to_matrix().into_vec(), Vec::<i32>::new());
}

#[test]
fn matrix_transpose_swaps_rows_and_columns() {
    let m = Matrix::from_vec(2, 3, vec![1, 2, 3, 4, 5, 6]);
    let t = m.transpose();
    assert_eq!(t.nrows(), 3);
    assert_eq!(t.ncols(), 2);
    assert_eq!(t.into_vec(), vec![1, 3, 5, 2, 4, 6]);
    let empty = Matrix::<i32>::from_vec(0, 3, vec![]).transpose();
    assert_eq!(empty.nrows(), 3);
    assert_eq!(empty.ncols(), 0);
}

#[test]
fn matrix_fill_diagonal_and_repeated() {
    let mut m = Matrix::filled(2, 3, 0);
    m.fill_diagonal(5);
    assert_eq!(m.into_vec(), vec![5, 0, 0, 5, 0, 0]);
    let mut tall = Matrix::filled(3, 2, 1);
    tall.fill_diagonal(9);
    assert_eq!(tall.into_vec(), vec![9, 1, 1, 1, 9, 1]);
    let r = Matrix::repeated(&vec![1, 2], 3);
    assert_eq!(r.nrows(), 2);
    assert_eq!(r.into_vec(), vec![1, 2, 1, 2, 1, 2]);
    let z = Matrix::<f64>::zeros(2, 2);
    assert_eq!(z.into_vec(), vec![0.0; 4]);
}

#[test]
fn sparse_matrix_keeps_what_is_not_zero() {
    let dense = Matrix::from_vec(2, 3, vec![0.0, 2.0, 1.0, 0.0, 0.0, 3.0]);
    // 0 1 0
    // 2 0 3
    let mut sparse = SparseMatrix::from_dense(&dense);
    assert_eq!(sparse.nrows(), 2);
    assert_eq!(sparse.ncols(), 3);
    assert_eq!(sparse.times_vector(&vec![1.0, 10.0, 100.0]), vec![10.0, 302.0]);
    sparse.scale(0.5);
    assert_eq!(sparse.times_vector(&vec![1.0, 10.0, 100.0]), vec![5.0, 151.0]);
}

#[test]
fn matrix_clone_is_a_matrix_of_its_own() {
    let m = Matrix::from_vec(2, 2, vec![1, 2, 3, 4]);
    let mut copy = m.clone();
    copy.set(0, 0, 9);
    assert_eq!(m.get(0, 0), 1);
    assert_eq!(copy.into_vec(), vec![9, 2, 3, 4]);
    assert_eq!(format!("{:?}", m.column(1)), "[3, 4]");
    let sparse = SparseMatrix::from_dense(&Matrix::from_vec(1, 2, vec![0.0, 2.0]));
    let mut copy = sparse.clone();
    copy.scale(2.0);
    assert_eq!(sparse.times_vector(&vec![1.0, 1.0]), vec![2.0]);
    assert_eq!(copy.times_vector(&vec![1.0, 1.0]), vec![4.0]);
}

#[test]
fn matrix_mirror_upper_copies_the_upper_triangle_down() {
    let m = Matrix::from_vec(3, 3, vec![1, -1, -2, 2, 4, -3, 3, 5, 6]);
    // 1 2 3
    // . 4 5
    // . . 6
    let mirrored = m.mirror_upper();
    assert_eq!(mirrored.into_vec(), vec![1, 2, 3, 2, 4, 5, 3, 5, 6]);
    assert_eq!(Matrix::<i32>::from_vec(0, 0, vec![]).mirror_upper().ncols(), 0);
}
