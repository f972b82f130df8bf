use alphazero::convolution::{padding, spans_exactly};
use alphazero::tensor::{Tensor, Tensor1, Tensor2, Tensor3, TensorError};

fn t1<const L: usize>(v: [i32; L]) -> Tensor1<i32, L> {
    Tensor1::new(v.to_vec()).unwrap()
}

fn t2<const C: usize, const R: usize, const N: usize>(v: [i32; N]) -> Tensor2<i32, C, R> {
    Tensor2::new(v.to_vec()).unwrap()
}

fn t3<const D1: usize, const D2: usize, const D3: usize, const N: usize>(
    v: [i32; N],
) -> Tensor3<i32, D1, D2, D3> {
    Tensor3::new(v.to_vec()).unwrap()
}

#[test]
fn convolution_tensor1() {
    let a = t1([1, 2, 3, 4, 5, 6, 7]);
    let kernel = t1([1, 2, 3]);
    assert_eq!(a.convolve(&kernel).unwrap(), t1([14, 20, 26, 32, 38]));
    assert_eq!(
        a.convolve_with_pad(&kernel),
        t1([8, 14, 20, 26, 32, 38, 20])
    );
    assert_eq!(
        a.convolve_with_pad_to(&kernel).unwrap(),
        t1([3, 8, 14, 20, 26, 32, 38, 20, 7])
    );

    let b = t1([1, 2, 3, 4, 5, 6]);
    let kernel = t1([1, 2, 3, 4]);
    assert_eq!(b.convolve(&kernel).unwrap(), t1([30, 40, 50]));
    assert_eq!(
        b.convolve_with_pad(&kernel),
        t1([11, 20, 30, 40, 50, 32])
    );
    assert_eq!(b.convolve_with_pad_to(&kernel).unwrap(), t1([20, 30, 40, 50, 32]))
}

#[test]
fn convolution_tensor2() {
    let a: Tensor2<_, 3, 3> = t2([
        1, 2, 3,
        4, 5, 6,
        7, 8, 9,
    ]);
    let kernel: Tensor2<_, 2, 2> = t2([
        1, 2,
        3, 4,
    ]);
    assert_eq!(a.convolve(&kernel).unwrap(), t2::<2, 2, 4>([37, 47, 67, 77]));
    assert_eq!(
        a.convolve_with_pad(&kernel),
        t2([4, 11, 18, 18, 37, 47, 36, 67, 77])
    );
    assert_eq!(
        a.convolve_with_pad_to(&kernel).unwrap(),
        t2::<4, 2, 8>([18, 37, 47, 21, 36, 67, 77, 33])
    );

    let b: Tensor2<_, 3, 4> = t2([
        1, 2, 3,
        4, 5, 6,
        7, 8, 9,
        10, 11, 12,
    ]);
    let kernel: Tensor2<_, 2, 3> = t2([
        1, 2,
        3, 4,
        5, 6,
    ]);
    assert_eq!(b.convolve(&kernel).unwrap(), t2::<2, 2, 4>([120, 141, 183, 204]));
    assert_eq!(b.convolve_with_pad(&kernel), t2([
        28, 61, 79,
        60, 120, 141,
        96, 183, 204,
        54, 97, 107,
    ]));
    assert_eq!(
        b.convolve_with_pad_to(&kernel).unwrap(),
        t2::<3, 2, 6>([120, 141, 66, 183, 204, 93])
    );
}

#[test]
fn convolution_tensor3() {
    let a: Tensor3<_, 3, 2, 2> = t3([
        1, 2, 3,
        4, 5, 6,

        7, 8, 9,
        10, 11, 12,
    ]);
    let kernel: Tensor3<_, 2, 2, 2> = t3([
        1, 2,
        3, 4,

        5, 6,
        7, 8,
    ]);
    assert_eq!(a.convolve(&kernel).unwrap(), t3::<2, 1, 1, 2>([278, 314]));
    assert_eq!(a.convolve_with_pad(&kernel), t3([
        8, 23, 38,
        38, 85, 111,

        60, 124, 146,
        140, 278, 314
    ]));
    assert_eq!(
        a.convolve_with_pad_to(&kernel).unwrap(),
        t3::<2, 1, 2, 4>([278, 314, 97, 107])
    )
}

#[test]
fn convolve_refuses_an_output_of_another_shape() {
    let a = t1([1, 2, 3, 4, 5, 6, 7]);
    let kernel = t1([1, 2, 3]);
    assert_eq!(a.convolve::<3, 4>(&kernel), Err(TensorError::ShapeMismatch));
    assert_eq!(a.convolve::<3, 6>(&kernel), Err(TensorError::ShapeMismatch));
    let m: Tensor2<_, 3, 3> = t2([1, 2, 3, 4, 5, 6, 7, 8, 9]);
    let k: Tensor2<_, 2, 2> = t2([1, 2, 3, 4]);
    assert_eq!(m.convolve::<2, 2, 3, 2>(&k), Err(TensorError::ShapeMismatch));
    assert_eq!(m.convolve::<2, 2, 2, 1>(&k), Err(TensorError::ShapeMismatch));
    let c: Tensor3<_, 2, 2, 2> = t3([1, 2, 3, 4, 5, 6, 7, 8]);
    let ck: Tensor3<_, 2, 2, 2> = t3([1, 0, 0, 0, 0, 0, 0, 0]);
    assert_eq!(c.convolve::<2, 2, 2, 1, 1, 2>(&ck), Err(TensorError::ShapeMismatch));
    assert_eq!(c.convolve::<2, 2, 2, 1, 1, 1>(&ck).unwrap(), t3([1]));
}

#[test]
fn convolve_with_pad_to_refuses_negative_padding() {
    let a = t1([1, 2, 3, 4, 5, 6, 7]);
    let kernel = t1([1, 2, 3]);
    assert_eq!(a.convolve_with_pad_to::<3, 4>(&kernel), Err(TensorError::ShapeMismatch));
    assert_eq!(a.convolve_with_pad_to::<3, 5>(&kernel).unwrap(), t1([14, 20, 26, 32, 38]));
    let m: Tensor2<_, 3, 3> = t2([1, 2, 3, 4, 5, 6, 7, 8, 9]);
    let k: Tensor2<_, 2, 2> = t2([1, 2, 3, 4]);
    assert_eq!(m.convolve_with_pad_to::<2, 2, 1, 2>(&k), Err(TensorError::ShapeMismatch));
    let c: Tensor3<_, 2, 2, 2> = t3([1, 2, 3, 4, 5, 6, 7, 8]);
    let ck: Tensor3<_, 2, 2, 2> = t3([1, 0, 0, 0, 0, 0, 0, 0]);
    assert_eq!(
        c.convolve_with_pad_to::<2, 2, 2, 1, 1, 0>(&ck),
        Err(TensorError::ShapeMismatch)
    );
}

#[test]
fn an_empty_kernel_gives_default_outputs() {
    let a = t1([1, 2, 3]);
    let kernel: Tensor1<i32, 0> = t1([]);
    assert_eq!(a.convolve::<0, 4>(&kernel).unwrap(), t1([0, 0, 0, 0]));
    assert_eq!(a.convolve_with_pad(&kernel), t1([0, 0, 0]));
}

#[test]
fn convolve_with_pad_keeps_the_shape() {
    let a: Tensor2<i32, 5, 4> = Tensor2::new((0..20).collect()).unwrap();
    let k: Tensor2<_, 3, 3> = t2([0, 0, 0, 0, 1, 0, 0, 0, 0]);
    let r = a.convolve_with_pad(&k);
    assert_eq!(r.shape(), (5, 4));
    assert_eq!(r, a);
    let b: Tensor3<i32, 2, 3, 2> = Tensor3::new((0..12).collect()).unwrap();
    let k3: Tensor3<i32, 1, 1, 1> = t3([2]);
    let r3 = b.convolve_with_pad(&k3);
    assert_eq!(r3.shape(), (2, 3, 2));
    assert_eq!(r3, Tensor3::new((0..12).map(|x| 2 * x).collect()).unwrap());
    let v = t1([1, 2, 3, 4]);
    assert_eq!(v.convolve_with_pad(&t1([5])).shape(), 4);
}

#[test]
fn shape_helpers() {
    assert!(spans_exactly(5, 3, 7));
    assert!(!spans_exactly(4, 3, 7));
    assert!(spans_exactly(0, 1, 0));
    assert!(spans_exactly(1, usize::MAX, usize::MAX));
    assert!(!spans_exactly(2, usize::MAX, usize::MAX));
    assert_eq!(padding(9, 3, 7), Some(4));
    assert_eq!(padding(5, 3, 7), Some(0));
    assert_eq!(padding(4, 3, 7), None);
    assert_eq!(padding(usize::MAX, 1, 0), None);
}
