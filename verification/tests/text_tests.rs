use alphazero::matrix::Matrix;
use alphazero::tensor::{Tensor, Tensor1, Tensor2, Tensor3};

#[test]
fn tensor1_text_is_one_line() {
    let a: Tensor1<i32, 3> = Tensor1::new(vec![1, -2, 3]).unwrap();
    assert_eq!(a.to_text(), "[1, -2, 3]\n");
    let empty: Tensor1<i32, 0> = Tensor1::new(vec![]).unwrap();
    assert_eq!(empty.to_text(), "[]\n");
}

#[test]
fn tensor2_text_is_a_line_for_each_chunk() {
    let a: Tensor2<i32, 2, 2> = Tensor2::new(vec![1, 2, 3, 4]).unwrap();
    assert_eq!(a.to_text(), "[1, 2]\n[3, 4]\n");
    let b: Tensor2<f64, 2, 3> = Tensor2::new(vec![0.5, 1., 1.5, 2., 2.5, 3.]).unwrap();
    assert_eq!(b.to_text(), "[0.5, 1.0, 1.5]\n[2.0, 2.5, 3.0]\n");
}

#[test]
fn tensor3_text_is_bracketed_planes() {
    let a: Tensor3<i32, 2, 2, 2> = Tensor3::new(vec![0, 1, 2, 3, 4, 5, 6, 7]).unwrap();
    assert_eq!(a.to_text(), "[\n[0, 1]\n[2, 3]\n\n[4, 5]\n[6, 7]\n]\n");
    let none: Tensor3<i32, 2, 2, 0> = Tensor3::new(vec![]).unwrap();
    assert_eq!(none.to_text(), "[]\n");
}

#[test]
fn matrix_text_is_a_line_for_each_row() {
    let a: Matrix<i32, 2, 3> = Matrix::new(vec![1, 2, 3, 4, 5, 6]).unwrap();
    assert_eq!(a.to_text(), "[1, 2, 3]\n[4, 5, 6]\n");
}
