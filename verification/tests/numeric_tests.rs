use alphazero::convolution::accumulate;
use alphazero::elementwise::{
    add_each, div_each, map_each, mul_each, scale_each, sub_each, ElementWiseTensor,
};
use alphazero::matrix::Matrix;
use alphazero::numeric::dot_of;
use alphazero::order::greater;
use alphazero::slice::{shifted, split_offset};
use alphazero::tensor::{
    array_init, repeat, reverse_store, volume2, volume3, Tensor, Tensor1, Tensor2, Tensor3,
};

#[test]
fn dot_of_adds_the_products_from_the_left() {
    assert_eq!(dot_of(0, &vec![1, 2, 3], &vec![4, 5, 6]), 32);
    assert_eq!(dot_of(100, &vec![1, 2, 3], &vec![4, 5]), 114);
    assert_eq!(dot_of(7, &vec![], &vec![]), 7);
    assert_eq!(dot_of(0.5, &vec![0.25, 2.0], &vec![2.0, 0.125]), 0.5 + 0.5 + 0.25);
}

#[test]
fn store_operations_work_element_by_element() {
    assert_eq!(add_each(&vec![1, 2], &vec![10, 20]), vec![11, 22]);
    assert_eq!(sub_each(&vec![1, 2], &vec![10, 20]), vec![-9, -18]);
    assert_eq!(mul_each(&vec![3, 2], &vec![10, 20]), vec![30, 40]);
    assert_eq!(div_each(&vec![30, 41], &vec![10, 20]), vec![3, 2]);
    assert_eq!(scale_each(&vec![1, -2, 3], 4), vec![4, -8, 12]);
    assert_eq!(map_each(&vec![1, 2, 3], &|x: i32| x > 1), vec![false, true, true]);
    assert_eq!(accumulate(&vec![1, 1], &vec![2, 3], 10), vec![21, 31]);
}

#[test]
fn vectors_are_built_as_asked() {
    assert_eq!(repeat(7u8, 3), vec![7, 7, 7]);
    assert_eq!(repeat(7u8, 0), Vec::<u8>::new());
    assert_eq!(array_init(4, &|i: usize| i * i), vec![0, 1, 4, 9]);
    assert_eq!(reverse_store(&vec![1, 2, 3]), vec![3, 2, 1]);
}

#[test]
fn volumes_are_products_that_fit() {
    assert_eq!(volume2(3, 4), Some(12));
    assert_eq!(volume2(usize::MAX, 2), None);
    assert_eq!(volume2(usize::MAX, 0), Some(0));
    assert_eq!(volume3(2, 3, 4), Some(24));
    assert_eq!(volume3(usize::MAX, 2, 0), Some(0));
    assert_eq!(volume3(usize::MAX, 2, 1), None);
    assert_eq!(volume3(2, usize::MAX, 2), None);
}

#[test]
fn shifted_moves_a_coordinate_inside_the_extent() {
    assert_eq!(shifted(2, 3, 0, 6), Some(5));
    assert_eq!(shifted(2, 4, 0, 6), None);
    assert_eq!(shifted(2, 0, 2, 6), Some(0));
    assert_eq!(shifted(2, 0, 3, 6), None);
    assert_eq!(shifted(usize::MAX, usize::MAX, usize::MAX, usize::MAX), None);
    assert_eq!(shifted(5, usize::MAX, usize::MAX, 6), Some(5));
    assert_eq!(shifted(0, 0, 0, 0), None);
    assert_eq!(split_offset(5), (5, 0));
    assert_eq!(split_offset(0), (0, 0));
    assert_eq!(split_offset(-5), (0, 5));
    assert_eq!(split_offset(isize::MIN), (0, 1 << (usize::BITS - 1)));
}

#[test]
fn greater_compares() {
    assert!(greater(&2, &1));
    assert!(!greater(&1, &1));
    assert!(!greater(&0.5, &f64::NAN));
    assert!(greater(&0.5, &f64::NEG_INFINITY));
}

#[test]
fn default_tensors_hold_default_elements() {
    assert_eq!(Tensor1::<i32, 3>::default(), Tensor1::new(vec![0; 3]).unwrap());
    assert_eq!(Tensor2::<u8, 2, 3>::default(), Tensor2::new(vec![0; 6]).unwrap());
    assert_eq!(Tensor3::<f64, 2, 1, 2>::default(), Tensor3::new(vec![0.; 4]).unwrap());
    assert_eq!(Matrix::<bool, 2, 2>::default(), Matrix::new(vec![false; 4]).unwrap());
}

#[test]
fn set_nth_changes_one_element() {
    let mut a: Tensor2<i32, 2, 2> = Tensor2::new(vec![1, 2, 3, 4]).unwrap();
    a.set_nth(2, 9);
    assert_eq!(a, Tensor2::new(vec![1, 2, 9, 4]).unwrap());
    let mut b: Tensor1<i32, 1> = Tensor1::new(vec![1]).unwrap();
    b.set_nth(0, -1);
    assert_eq!(b.nth(0), -1);
    let mut c: Tensor3<i32, 1, 1, 2> = Tensor3::new(vec![1, 2]).unwrap();
    c.set_nth(1, 5);
    assert_eq!(c.get_data(), vec![1, 5]);
}

fn softmax<const L: usize>(logits: Tensor1<f64, L>) -> Tensor1<f64, L> {
    let b = logits.get_data_ref().iter().cloned().fold(f64::NAN, f64::max);
    let exp = logits.map(|x| f64::exp(x - b));
    let total = exp.clone().sum();
    exp.scale(1. / total)
}

#[test]
fn softmax_from_map_sum_and_scale_sums_to_one_and_ignores_shifts() {
    let logits: Tensor1<f64, 5> = Tensor1::new(vec![0.5, -1.25, 3., 0., 2.75]).unwrap();
    let shifted: Tensor1<f64, 5> =
        Tensor1::new(logits.get_data_ref().iter().map(|x| x + 1000.).collect()).unwrap();
    let p = softmax(logits);
    let q = softmax(shifted);
    assert!((p.clone().sum() - 1.).abs() < 1e-9);
    assert!((q.clone().sum() - 1.).abs() < 1e-9);
    for i in 0..5 {
        assert!((p.nth(i) - q.nth(i)).abs() < 1e-9);
        assert!(p.nth(i) > 0.);
    }
    assert!(p.nth(2) > p.nth(4) && p.nth(4) > p.nth(0));
}
