use alphazero::backprop::{bp_convolution, bp_fully_connected};
use alphazero::tensor::{Tensor, Tensor1, Tensor3};

fn t1<const L: usize>(v: [i64; L]) -> Tensor1<i64, L> {
    Tensor1::new(v.to_vec()).unwrap()
}

fn numbered(count: usize, seed: i64) -> Vec<i64> {
    let mut state = seed;
    (0..count)
        .map(|_| {
            state = (state * 1103515245 + 12345) % 2147483648;
            state % 19 - 9
        })
        .collect()
}

fn at(store: &[i64], channels: usize, c: i64, r: i64, ch: usize) -> i64 {
    let _ = channels;
    if (0..5).contains(&c) && (0..5).contains(&r) {
        store[c as usize + 5 * r as usize + 25 * ch]
    } else {
        0
    }
}

#[test]
fn fully_connected_step_moves_weights_and_biases_and_passes_derivatives_back() {
    let mut weights = vec![t1([1, 2, 3]), t1([4, 5, 6])];
    let mut biases = t1([10, 20]);
    let inputs = t1([1, 0, -1]);
    let derivatives = t1([2, -3]);
    let back = bp_fully_connected(&mut weights, &mut biases, &inputs, &derivatives, 5);
    // Row b loses input * (derivative[b] * rate).
    assert_eq!(weights, vec![t1([1 - 10, 2, 3 + 10]), t1([4 + 15, 5, 6 - 15])]);
    assert_eq!(biases, t1([10 - 10, 20 + 15]));
    // Input a gets the derivatives times the weights it had before.
    assert_eq!(back, t1([2 * 1 - 3 * 4, 2 * 2 - 3 * 5, 2 * 3 - 3 * 6]));
}

#[test]
fn fully_connected_step_with_floats() {
    let mut weights: Vec<Tensor1<f64, 2>> = vec![Tensor1::new(vec![0.5, -0.5]).unwrap()];
    let mut biases: Tensor1<f64, 1> = Tensor1::new(vec![1.0]).unwrap();
    let inputs: Tensor1<f64, 2> = Tensor1::new(vec![2.0, 4.0]).unwrap();
    let derivatives: Tensor1<f64, 1> = Tensor1::new(vec![0.25]).unwrap();
    let back = bp_fully_connected(&mut weights, &mut biases, &inputs, &derivatives, 0.5);
    assert_eq!(weights[0], Tensor1::new(vec![0.5 - 2.0 * 0.125, -0.5 - 4.0 * 0.125]).unwrap());
    assert_eq!(biases, Tensor1::new(vec![1.0 - 0.125]).unwrap());
    assert_eq!(back, Tensor1::new(vec![0.125, -0.125]).unwrap());
}

#[test]
fn convolution_step_follows_the_gradient() {
    const A: usize = 2;
    const B: usize = 3;
    let old_kernels: Vec<Vec<i64>> = (0..B).map(|i| numbered(9 * A, 7 + i as i64)).collect();
    let mut kernels: Vec<Tensor3<i64, 3, 3, A>> =
        old_kernels.iter().map(|k| Tensor3::new(k.clone()).unwrap()).collect();
    let old_biases = numbered(25 * B, 100);
    let mut biases: Tensor3<i64, 5, 5, B> = Tensor3::new(old_biases.clone()).unwrap();
    let inputs = numbered(25 * A, 200);
    let derivatives = numbered(25 * B, 300);
    let rate = 3;
    let back = bp_convolution(
        &mut kernels,
        &mut biases,
        &Tensor3::<i64, 5, 5, A>::new(inputs.clone()).unwrap(),
        &Tensor3::<i64, 5, 5, B>::new(derivatives.clone()).unwrap(),
        rate,
    );
    // The output of kernel i at (c, r) is the sum over the kernel's cells
    // (kc, kr, ch) of input(c + kc - 1, r + kr - 1, ch) * kernel(kc, kr, ch).
    for i in 0..B {
        for ch in 0..A {
            for kr in 0..3i64 {
                for kc in 0..3i64 {
                    let mut gradient = 0;
                    for r in 0..5i64 {
                        for c in 0..5i64 {
                            gradient += at(&inputs, A, c + kc - 1, r + kr - 1, ch)
                                * derivatives[c as usize + 5 * r as usize + 25 * i];
                        }
                    }
                    let cell = kc as usize + 3 * kr as usize + 9 * ch;
                    assert_eq!(kernels[i].nth(cell), old_kernels[i][cell] - gradient * rate);
                }
            }
        }
    }
    for (cell, old) in old_biases.iter().enumerate() {
        assert_eq!(biases.nth(cell), old - derivatives[cell] * rate);
    }
    for ch in 0..A {
        for r in 0..5i64 {
            for c in 0..5i64 {
                let mut passed = 0;
                for i in 0..B {
                    for kr in 0..3i64 {
                        for kc in 0..3i64 {
                            let kernel = old_kernels[i][kc as usize + 3 * kr as usize + 9 * ch];
                            passed += kernel
                                * at(
                                    &derivatives[25 * i..25 * (i + 1)],
                                    1,
                                    c - kc + 1,
                                    r - kr + 1,
                                    0,
                                );
                        }
                    }
                }
                assert_eq!(back.nth(c as usize + 5 * r as usize + 25 * ch), passed);
            }
        }
    }
}

#[test]
fn convolution_step_is_what_the_padded_convolutions_give() {
    let kernel: Tensor3<i64, 3, 3, 1> = Tensor3::new(numbered(9, 1)).unwrap();
    let inputs: Tensor3<i64, 5, 5, 1> = Tensor3::new(numbered(25, 2)).unwrap();
    let derivatives: Tensor3<i64, 5, 5, 1> = Tensor3::new(numbered(25, 3)).unwrap();
    let mut kernels = vec![kernel.clone()];
    let mut biases: Tensor3<i64, 5, 5, 1> = Tensor3::new(vec![0; 25]).unwrap();
    let back = bp_convolution(&mut kernels, &mut biases, &inputs, &derivatives, 1);
    let gradient: Tensor3<i64, 3, 3, 1> = inputs.convolve_with_pad_to(&derivatives).unwrap();
    assert_eq!(kernels[0], kernel.clone() - gradient);
    let passed: Tensor3<i64, 5, 5, 1> =
        kernel.rev().convolve_with_pad_to(&derivatives).unwrap().rev();
    assert_eq!(back, passed);
}
