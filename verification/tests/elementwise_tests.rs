use alphazero::elementwise::ElementWiseTensor;
use alphazero::tensor::{Tensor, Tensor1, Tensor2, Tensor3};

fn t1<const L: usize>(v: [i32; L]) -> Tensor1<i32, L> {
    Tensor1::new(v.to_vec()).unwrap()
}

fn t2<const C: usize, const R: usize, const N: usize>(v: [i32; N]) -> Tensor2<i32, C, R> {
    Tensor2::new(v.to_vec()).unwrap()
}

fn t3<const D1: usize, const D2: usize, const D3: usize, const N: usize>(
    v: [i32; N],
) -> Tensor3<i32, D1, D2, D3> {
    Tensor3::new(v.to_vec()).unwrap()
}

#[test]
fn elementwise_tensor1() {
    let a = t1([1, 2, 3, 4, 5, 6, 7]);
    let b = t1([7, 6, 5, 4, 3, 2, 1]);
    assert_eq!(a.clone() + b.clone(), t1([8; 7]));
    assert_eq!(a.clone() - b.clone(), t1([-6, -4, -2, 0, 2, 4, 6]));
    assert_eq!(a.clone() * b.clone(), t1([7, 12, 15, 16, 15, 12, 7]));
    assert_eq!(a.clone() / b, t1([0, 0, 0, 1, 1, 3, 7]));
    assert_eq!(a.scale(3), t1([3, 6, 9, 12, 15, 18, 21]));
}

#[test]
fn elementwise_tensor2() {
    let a: Tensor2<_, 3, 3> = t2([1, 2, 3, 4, 5, 6, 7, 8, 9]);
    let b: Tensor2<_, 3, 3> = t2([9, 8, 7, 6, 5, 4, 3, 2, 1]);
    assert_eq!(a.clone() + b.clone(), t2([10; 9]));
    assert_eq!(a.clone() - b.clone(), t2([-8, -6, -4, -2, 0, 2, 4, 6, 8]));
    assert_eq!(a.clone() * b.clone(), t2([9, 16, 21, 24, 25, 24, 21, 16, 9]));
    assert_eq!(a.clone() / b, t2([0, 0, 0, 0, 1, 1, 2, 4, 9]));
    assert_eq!(a.scale(3), t2([3, 6, 9, 12, 15, 18, 21, 24, 27]));
}

#[test]
fn elementwise_tensor3() {
    let a: Tensor3<_, 2, 2, 2> = t3([1, 2, 3, 4, 5, 6, 7, 8]);
    let b: Tensor3<_, 2, 2, 2> = t3([8, 7, 6, 5, 4, 3, 2, 1]);
    assert_eq!(a.clone() + b.clone(), t3([9; 8]));
    assert_eq!(a.clone() - b.clone(), t3([-7, -5, -3, -1, 1, 3, 5, 7]));
    assert_eq!(a.clone() * b.clone(), t3([8, 14, 18, 20, 20, 18, 14, 8]));
    assert_eq!(a.clone() / b, t3([0, 0, 0, 0, 1, 2, 3, 8]));
    assert_eq!(a.scale(3), t3([3, 6, 9, 12, 15, 18, 21, 24]));
}

#[test]
fn elementwise_assign_tensor1() {
    let a = t1([1, 2, 3, 4, 5, 6, 7]);
    let mut b = a.clone();
    b.add_assign(&t1([4; 7]));
    b.mul_assign(&t1([2; 7]));
    b.div_assign(&t1([2; 7]));
    b.sub_assign(&t1([4; 7]));
    assert_eq!(a, b);
}

#[test]
fn elementwise_assign_tensor2() {
    let a: Tensor2<_, 3, 3> = t2([1, 2, 3, 4, 5, 6, 7, 8, 9]);
    let mut b = a.clone();
    b.add_assign(&t2([4; 9]));
    b.mul_assign(&t2([2; 9]));
    b.div_assign(&t2([2; 9]));
    b.sub_assign(&t2([4; 9]));
    assert_eq!(a, b);
}

#[test]
fn elementwise_assign_tensor3() {
    let a: Tensor3<_, 2, 2, 2> = t3([1, 2, 3, 4, 5, 6, 7, 8]);
    let mut b = a.clone();
    b.add_assign(&t3([4; 8]));
    b.mul_assign(&t3([2; 8]));
    b.div_assign(&t3([2; 8]));
    b.sub_assign(&t3([4; 8]));
    assert_eq!(a, b);
}

#[test]
fn elementwise_map() {
    let a: Tensor3<_, 2, 2, 2> = t3([1, 2, 3, 4, 5, 6, 7, 8]);
    assert_eq!(a.map(|x| x + 1), t3::<2, 2, 2, 8>([2, 3, 4, 5, 6, 7, 8, 9]));
}

#[test]
fn adding_then_subtracting_gives_the_first_operand_back() {
    let a = t1([i32::MAX - 5, -7, 0, 12, i32::MIN + 9]);
    let b = t1([5, -100, 0, 30, -9]);
    assert_eq!((a.clone() + b.clone()) - b, a);
    let c: Tensor2<i64, 2, 2> = Tensor2::new(vec![1, -2, 3, -4]).unwrap();
    let d: Tensor2<i64, 2, 2> = Tensor2::new(vec![i64::MAX - 1, 2, -3, i64::MIN + 4]).unwrap();
    assert_eq!((c.clone() + d.clone()) - d, c);
    let x: Tensor1<f64, 3> = Tensor1::new(vec![1.5, -2.25, 1e10]).unwrap();
    let y: Tensor1<f64, 3> = Tensor1::new(vec![0.5, 4.0, 3.0]).unwrap();
    let back = (x.clone() + y.clone()) - y;
    for i in 0..3 {
        assert!((back.nth(i) - x.nth(i)).abs() < 1e-6);
    }
}

#[test]
fn scale_multiplies_on_the_right() {
    let a: Tensor1<f64, 2> = Tensor1::new(vec![1.5, -2.0]).unwrap();
    assert_eq!(a.scale(2.0), Tensor1::new(vec![3.0, -4.0]).unwrap());
}
