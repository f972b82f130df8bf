use alphazero::tensor::{Tensor, Tensor1, Tensor2, Tensor3, TensorError, Vector};

fn t1<const L: usize>(v: [i32; L]) -> Tensor1<i32, L> {
    Tensor1::new(v.to_vec()).unwrap()
}

#[test]
fn create_tensor1() {
    let _ = Vector::<(), 0>::new(vec![]).unwrap();
    let _ = Vector::<i32, 8>::new(vec![0, 1, 2, 3, 4, 5, 6, 7]).unwrap();
    let _ = Vector::<f64, 6>::new(vec![0., 1., 2., 3., 4., 5.]).unwrap();
}

#[test]
fn create_tensor2() {
    let _ = Tensor2::<(), 0, 0>::new(vec![]).unwrap();
    let _ = Tensor2::<i32, 2, 4>::new(vec![0, 1, 2, 3, 4, 5, 6, 7]).unwrap();
    let _ = Tensor2::<f64, 3, 2>::new(vec![0., 1., 2., 3., 4., 5.]).unwrap();
}

#[test]
fn create_tensor3() {
    let _ = Tensor3::<(), 0, 0, 0>::new(vec![]).unwrap();
    let _ = Tensor3::<i32, 2, 2, 2>::new(vec![0, 1, 2, 3, 4, 5, 6, 7]).unwrap();
    let _ = Tensor3::<f64, 1, 2, 3>::new(vec![0., 1., 2., 3., 4., 5.]).unwrap();
}

#[test]
fn test_reshape() {
    let a = t1([0, 1, 2, 3, 4, 4, 5, 6, 7, 9, 10, 11]);
    let b: Tensor1<i32, 12> = a
        .clone()
        .reshape::<Tensor2<_, 2, 6>>()
        .unwrap()
        .reshape::<Tensor3<_, 2, 3, 2>>()
        .unwrap()
        .reshape::<Tensor2<_, 4, 3>>()
        .unwrap()
        .reshape()
        .unwrap();
    assert_eq!(a, b);
}

#[test]
fn nth() {
    let a = t1([0, 1, 2, 3, 4]);
    assert_eq!(a.nth(1), 1);
    let a = Tensor2::<i32, 2, 3>::new(vec![0, 1, 2, 3, 4, 5]).unwrap();
    assert_eq!(a.nth(2), 2);
    let a = Tensor3::<i32, 2, 2, 1>::new(vec![0, 1, 2, 3]).unwrap();
    assert_eq!(a.nth(3), 3);
}

#[test]
fn rev() {
    assert_eq!(t1([1, 2, 3, 4]).rev(), t1([4, 3, 2, 1]));
    assert_eq!(
        Tensor2::<i32, 2, 2>::new(vec![1, 2, 3, 4]).unwrap().rev(),
        Tensor2::new(vec![4, 3, 2, 1]).unwrap()
    );
    assert_eq!(
        Tensor3::<i32, 1, 2, 2>::new(vec![1, 2, 3, 4]).unwrap().rev(),
        Tensor3::new(vec![4, 3, 2, 1]).unwrap()
    );
}

#[test]
fn new_refuses_a_wrong_element_count() {
    assert_eq!(Tensor1::<i32, 3>::new(vec![1, 2]), Err(TensorError::ShapeMismatch));
    assert_eq!(Tensor2::<i32, 2, 2>::new(vec![1, 2, 3]), Err(TensorError::ShapeMismatch));
    assert_eq!(Tensor3::<i32, 2, 2, 2>::new(vec![0; 9]), Err(TensorError::ShapeMismatch));
    assert_eq!(
        Tensor2::<i32, { usize::MAX }, 2>::new(vec![1, 2]),
        Err(TensorError::ShapeMismatch)
    );
}

#[test]
fn reshape_refuses_another_element_count() {
    let a = t1([1, 2, 3, 4, 5, 6]);
    assert_eq!(a.clone().reshape::<Tensor2<i32, 2, 2>>(), Err(TensorError::ShapeMismatch));
    assert_eq!(
        a.reshape::<Tensor2<i32, 3, 2>>(),
        Ok(Tensor2::new(vec![1, 2, 3, 4, 5, 6]).unwrap())
    );
}

#[test]
fn sum_adds_from_the_left() {
    assert_eq!(t1([1, 2, 3, 4]).sum(), 10);
    assert_eq!(Tensor1::<i32, 0>::new(vec![]).unwrap().sum(), 0);
    assert_eq!(Tensor2::<i32, 2, 2>::new(vec![-1, 2, -3, 4]).unwrap().sum(), 2);
}

#[test]
fn shape_gives_the_extents() {
    assert_eq!(t1([1, 2, 3]).shape(), 3);
    assert_eq!(Tensor2::<i32, 3, 2>::new(vec![0; 6]).unwrap().shape(), (3, 2));
    assert_eq!(Tensor3::<i32, 1, 2, 3>::new(vec![0; 6]).unwrap().shape(), (1, 2, 3));
}

#[test]
fn get_data_gives_the_store_back() {
    let a = t1([5, 6, 7]);
    assert_eq!(a.get_data_ref(), &vec![5, 6, 7]);
    assert_eq!(a.get_data(), vec![5, 6, 7]);
}
