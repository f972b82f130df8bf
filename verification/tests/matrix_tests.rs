use alphazero::matrix::Matrix;
use alphazero::tensor::TensorError;

fn m<const R: usize, const C: usize, const N: usize>(v: [i32; N]) -> Matrix<i32, R, C> {
    Matrix::new(v.to_vec()).unwrap()
}

#[test]
fn matrix_new_checks_the_element_count() {
    assert!(Matrix::<i32, 2, 3>::new(vec![1, 2, 3, 4, 5, 6]).is_ok());
    assert_eq!(Matrix::<i32, 2, 3>::new(vec![1, 2, 3]), Err(TensorError::ShapeMismatch));
}

#[test]
fn matrix_reshape_keeps_the_order() {
    let a: Matrix<_, 2, 3> = m([1, 2, 3, 4, 5, 6]);
    assert_eq!(a.clone().reshape::<3, 2>().unwrap(), m::<3, 2, 6>([1, 2, 3, 4, 5, 6]));
    assert_eq!(a.clone().reshape::<1, 6>().unwrap(), m::<1, 6, 6>([1, 2, 3, 4, 5, 6]));
    assert_eq!(a.reshape::<2, 2>(), Err(TensorError::ShapeMismatch));
}

#[test]
fn matrix_transpose_swaps_rows_and_columns() {
    let a: Matrix<_, 2, 3> = m([1, 2, 3, 4, 5, 6]);
    assert_eq!(a.transpose(), m::<3, 2, 6>([1, 4, 2, 5, 3, 6]));
    let b: Matrix<_, 1, 3> = m([7, 8, 9]);
    assert_eq!(b.transpose(), m::<3, 1, 3>([7, 8, 9]));
}

#[test]
fn matrix_scale_multiplies_each_element() {
    let a: Matrix<_, 2, 2> = m([1, -2, 3, 4]);
    assert_eq!(a.scale(3), m::<2, 2, 4>([3, -6, 9, 12]));
}

#[test]
fn matrix_slice_takes_rows_then_columns() {
    let a: Matrix<_, 3, 3> = m([0, 1, 2, 3, 4, 5, 6, 7, 8]);
    assert_eq!(a.slice::<2, 2>(1, 1).unwrap(), m::<2, 2, 4>([4, 5, 7, 8]));
    assert_eq!(a.slice::<1, 3>(1, 0).unwrap(), m::<1, 3, 3>([3, 4, 5]));
    assert_eq!(a.slice::<3, 1>(0, 2).unwrap(), m::<3, 1, 3>([2, 5, 8]));
    assert_eq!(a.slice::<2, 2>(2, 0), Err(TensorError::OutOfBounds));
    assert_eq!(a.slice::<2, 2>(0, 2), Err(TensorError::OutOfBounds));
}

#[test]
fn matrix_slice_with_pad_fills_with_default() {
    let a: Matrix<_, 3, 3> = m([0, 1, 2, 3, 4, 5, 6, 7, 8]);
    assert_eq!(a.slice_with_pad::<2, 2>(-1, 2), m::<2, 2, 4>([0, 0, 2, 0]));
    assert_eq!(a.slice_with_pad::<4, 2>(0, -1), m::<4, 2, 8>([0, 0, 0, 3, 0, 6, 0, 0]));
    assert_eq!(
        a.slice_with_pad::<3, 3>(1, 1),
        m::<3, 3, 9>([4, 5, 0, 7, 8, 0, 0, 0, 0])
    );
}

#[test]
fn matrix_convolve_is_the_sum_of_scaled_windows() {
    let a: Matrix<_, 3, 3> = m([1, 2, 3, 4, 5, 6, 7, 8, 9]);
    let kernel: Matrix<_, 2, 2> = m([1, 2, 3, 4]);
    assert_eq!(a.convolve(&kernel).unwrap(), m::<2, 2, 4>([37, 47, 67, 77]));
    assert_eq!(
        a.convolve_with_pad(&kernel),
        m::<3, 3, 9>([4, 11, 18, 18, 37, 47, 36, 67, 77])
    );
    assert_eq!(a.convolve::<2, 2, 3, 2>(&kernel), Err(TensorError::ShapeMismatch));
    let b: Matrix<_, 4, 3> = m([1, 2, 3, 4, 5, 6, 7, 8, 9, 10, 11, 12]);
    let wide: Matrix<_, 3, 2> = m([1, 2, 3, 4, 5, 6]);
    assert_eq!(b.convolve(&wide).unwrap(), m::<2, 2, 4>([120, 141, 183, 204]));
    assert_eq!(
        b.convolve_with_pad(&wide),
        m::<4, 3, 12>([28, 61, 79, 60, 120, 141, 96, 183, 204, 54, 97, 107])
    );
}

#[test]
fn matrix_matmul_is_rows_by_columns() {
    let a: Matrix<_, 2, 3> = m([1, 2, 3, 4, 5, 6]);
    let b: Matrix<_, 3, 2> = m([7, 8, 9, 10, 11, 12]);
    assert_eq!(a.matmul(&b), m::<2, 2, 4>([58, 64, 139, 154]));
    let id = Matrix::<i32, 3, 3>::identity(0, 1);
    assert_eq!(a.matmul(&id), a);
    let c: Matrix<_, 1, 1> = m([5]);
    let d: Matrix<_, 1, 3> = m([1, 2, 3]);
    assert_eq!(c.matmul(&d), m::<1, 3, 3>([5, 10, 15]));
}

#[test]
fn matrix_identity_has_ones_on_the_diagonal() {
    assert_eq!(Matrix::<i32, 3, 3>::identity(0, 1), m::<3, 3, 9>([1, 0, 0, 0, 1, 0, 0, 0, 1]));
    assert_eq!(Matrix::<i32, 1, 1>::identity(0, 1), m::<1, 1, 1>([1]));
    assert_eq!(Matrix::<i32, 2, 2>::identity(7, 9), m::<2, 2, 4>([9, 7, 7, 9]));
}

#[test]
fn matrix_rows_and_cols_walk_in_order() {
    let a: Matrix<_, 2, 3> = m([1, 2, 3, 4, 5, 6]);
    let mut rows = a.rows();
    assert_eq!(rows.next(), Some(vec![1, 2, 3]));
    assert_eq!(rows.next(), Some(vec![4, 5, 6]));
    assert_eq!(rows.next(), None);
    assert_eq!(rows.next(), None);
    let mut cols = a.cols();
    assert_eq!(cols.next(), Some(vec![1, 4]));
    assert_eq!(cols.next(), Some(vec![2, 5]));
    assert_eq!(cols.next(), Some(vec![3, 6]));
    assert_eq!(cols.next(), None);
    assert_eq!(a.row_at(1), vec![4, 5, 6]);
    assert_eq!(a.col_at(2), vec![3, 6]);
}

#[test]
fn matrix_elementwise_operators() {
    let a: Matrix<_, 2, 2> = m([1, 2, 3, 4]);
    let b: Matrix<_, 2, 2> = m([4, 3, 2, 1]);
    assert_eq!(a.clone() + b.clone(), m::<2, 2, 4>([5, 5, 5, 5]));
    assert_eq!(a.clone() - b.clone(), m::<2, 2, 4>([-3, -1, 1, 3]));
    assert_eq!(a.clone() * b.clone(), m::<2, 2, 4>([4, 6, 6, 4]));
    assert_eq!(a.clone() / b.clone(), m::<2, 2, 4>([0, 0, 1, 4]));
    let mut c = a.clone();
    c.add_assign(&b);
    c.mul_assign(&m([2; 4]));
    c.div_assign(&m([2; 4]));
    c.sub_assign(&b);
    assert_eq!(c, a);
}
