use alphazero::tensor::{Tensor, Tensor1, Tensor2, Tensor3, TensorError};

fn t1<const L: usize>(v: [i32; L]) -> Tensor1<i32, L> {
    Tensor1::new(v.to_vec()).unwrap()
}

fn t2<const C: usize, const R: usize, const N: usize>(v: [i32; N]) -> Tensor2<i32, C, R> {
    Tensor2::new(v.to_vec()).unwrap()
}

fn t3<const D1: usize, const D2: usize, const D3: usize, const N: usize>(
    v: [i32; N],
) -> Tensor3<i32, D1, D2, D3> {
    Tensor3::new(v.to_vec()).unwrap()
}

#[test]
fn slice_tensor1() {
    let a = t1([0, 1, 2, 3, 4, 5, 6, 7]);
    assert_eq!(a.slice::<4>(3).unwrap(), t1([3, 4, 5, 6]));
    assert_eq!(
        a.slice_with_pad::<10>(-1),
        t1([0, 0, 1, 2, 3, 4, 5, 6, 7, 0])
    );
}

#[test]
fn slice_tensor2() {
    let a: Tensor2<_, 3, 3> = t2([0, 1, 2, 3, 4, 5, 6, 7, 8]);
    assert_eq!(a.slice::<2, 2>(1, 1).unwrap(), t2([4, 5, 7, 8]));
    assert_eq!(a.slice::<3, 1>(0, 1).unwrap(), t2([3, 4, 5]));
    assert_eq!(a.slice::<1, 3>(2, 0).unwrap(), t2([2, 5, 8]));
    assert_eq!(a.slice_with_pad::<2, 2>(2, -1), t2([0, 0, 2, 0]));
    assert_eq!(
        a.slice_with_pad::<2, 4>(-1, 0),
        t2([0, 0, 0, 3, 0, 6, 0, 0])
    );
    assert_eq!(
        a.slice_with_pad::<3, 3>(1, 1),
        t2([4, 5, 0, 7, 8, 0, 0, 0, 0])
    );
}

#[test]
fn slice_tensor3() {
    let a: Tensor3<_, 2, 2, 2> = t3([
        0, 1,
        2, 3,

        4, 5,
        6, 7
    ]);
    assert_eq!(a.slice::<2, 2, 1>(0, 0, 0).unwrap(), t3([0, 1, 2, 3]));
    assert_eq!(a.slice::<2, 1, 2>(0, 0, 0).unwrap(), t3([0, 1, 4, 5]));
    assert_eq!(a.slice::<1, 2, 2>(0, 0, 0).unwrap(), t3([0, 2, 4, 6]));
    assert_eq!(a.slice::<1, 1, 2>(1, 0, 0).unwrap(), t3([1, 5]));
    assert_eq!(a.slice::<1, 2, 1>(0, 0, 1).unwrap(), t3([4, 6]));
    assert_eq!(a.slice::<2, 1, 1>(0, 1, 0).unwrap(), t3([2, 3]));
    assert_eq!(a.slice::<2, 1, 1>(0, 1, 0).unwrap(), t3([2, 3]));
    assert_eq!(
        a.slice_with_pad::<2, 2, 2>(1, 0, 0),
        t3([1, 0, 3, 0, 5, 0, 7, 0])
    );
    assert_eq!(
        a.slice_with_pad::<2, 2, 2>(0, 1, 0),
        t3([2, 3, 0, 0, 6, 7, 0, 0])
    );
    assert_eq!(
        a.slice_with_pad::<2, 2, 2>(0, 0, 1),
        t3([4, 5, 6, 7, 0, 0, 0, 0])
    );
}

#[test]
fn slice_refuses_a_window_that_reaches_outside() {
    let a = t1([0, 1, 2, 3]);
    assert_eq!(a.slice::<3>(2), Err(TensorError::OutOfBounds));
    assert_eq!(a.slice::<5>(0), Err(TensorError::OutOfBounds));
    assert_eq!(a.slice::<1>(usize::MAX), Err(TensorError::OutOfBounds));
    assert_eq!(a.slice::<4>(0).unwrap(), a);
    assert_eq!(a.slice::<0>(4).unwrap(), t1([]));
    let b: Tensor2<_, 3, 2> = t2([0, 1, 2, 3, 4, 5]);
    assert_eq!(b.slice::<2, 2>(2, 0), Err(TensorError::OutOfBounds));
    assert_eq!(b.slice::<2, 2>(0, 1), Err(TensorError::OutOfBounds));
    let c: Tensor3<_, 2, 2, 2> = t3([0, 1, 2, 3, 4, 5, 6, 7]);
    assert_eq!(c.slice::<2, 2, 2>(0, 0, 1), Err(TensorError::OutOfBounds));
    assert_eq!(c.slice::<1, 3, 1>(0, 0, 0), Err(TensorError::OutOfBounds));
}

#[test]
fn slice_with_pad_far_outside_is_all_default() {
    let a = t1([1, 2, 3]);
    assert_eq!(a.slice_with_pad::<2>(isize::MAX), t1([0, 0]));
    assert_eq!(a.slice_with_pad::<2>(isize::MIN), t1([0, 0]));
    assert_eq!(a.slice_with_pad::<4>(2), t1([3, 0, 0, 0]));
    let b: Tensor2<_, 2, 2> = t2([1, 2, 3, 4]);
    assert_eq!(b.slice_with_pad::<2, 2>(isize::MIN, 0), t2([0, 0, 0, 0]));
    assert_eq!(b.slice_with_pad::<2, 2>(0, 0), b);
}
