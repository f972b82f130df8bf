use alphazero::elementwise::ElementWiseTensor;
use alphazero::network::{Network, NETWORK_SIZE};
use alphazero::tensor::{Tensor, Tensor1, Tensor3};

fn numbered(count: usize, seed: u64) -> Vec<f64> {
    let mut state = seed;
    (0..count)
        .map(|_| {
            state = state.wrapping_mul(6364136223846793005).wrapping_add(1442695040888963407);
            ((state >> 11) as f64 / (1u64 << 53) as f64) * 0.02 - 0.01
        })
        .collect()
}

fn relu(x: f64) -> f64 {
    alphazero::ml::relu(x)
}

fn d_relu(x: f64) -> f64 {
    alphazero::ml::d_relu(x)
}

fn softmax<const L: usize>(logits: Tensor1<f64, L>) -> Tensor1<f64, L> {
    let b = logits.get_data_ref().iter().cloned().fold(f64::NAN, f64::max);
    let exp = logits.map(|x| f64::exp(x - b));
    let total = exp.clone().sum();
    exp.scale(1. / total)
}

// One step of gradient descent towards the policy `pi` and the value `z`, at
// the rate 0.0001; returns the loss before the step.
fn back_prop(
    network: &mut Network<f64>,
    input: &Tensor3<f64, 5, 5, 8>,
    pi: &Tensor1<f64, 625>,
    z: f64,
) -> f64 {
    let trace = network.forward(input, &relu);
    let (o, b) = trace.l6_x.split_last::<625>().unwrap();
    let p = softmax(o);
    let v = b.tanh();
    let loss = (z - v).powi(2) - (pi.clone() * p.clone().map(f64::ln)).sum();
    let d_v = 2. * (v - z);
    let d_b = d_v * (1. / b.cosh().powi(2));
    let mut data = (p - pi.clone()).get_data();
    data.push(d_b);
    let d_x: Tensor1<f64, 626> = Tensor1::new(data).unwrap();
    network.backward(input, &trace, &d_x, &d_relu, 0.0001);
    loss
}

#[test]
fn forward_chains_the_layers() {
    let network = Network::from_save_data(numbered(NETWORK_SIZE, 1)).unwrap();
    let input: Tensor3<f64, 5, 5, 8> = Tensor3::new(numbered(200, 2)).unwrap();
    let trace = network.forward(&input, &relu);
    assert_eq!(trace.l1_x, input.convolution_pass(&network.l1_kernels, &network.l1_biases));
    for i in 0..1600 {
        assert_eq!(trace.l1_a.nth(i), relu(trace.l1_x.nth(i)));
        assert_eq!(trace.l4_a.nth(i), relu(trace.l4_x.nth(i)));
    }
    assert_eq!(trace.l2_x, trace.l1_a.convolution_pass(&network.l2_kernels, &network.l2_biases));
    assert_eq!(trace.l3_x, trace.l2_a.convolution_pass(&network.l3_kernels, &network.l3_biases));
    assert_eq!(trace.l4_x, trace.l3_a.convolution_pass(&network.l4_kernels, &network.l4_biases));
    assert_eq!(
        trace.l5_x,
        trace.l4_a.fully_connected_pass(&network.l5_weights, &network.l5_biases)
    );
    assert_eq!(
        trace.l6_x,
        trace.l5_a.fully_connected_pass(&network.l6_weights, &network.l6_biases)
    );
    assert_eq!(trace.l6_x.shape(), 626);
    assert!(trace.l6_x.get_data_ref().iter().all(|x| x.is_finite()));
}

#[test]
fn backward_steps_every_layer() {
    let before = Network::from_save_data(numbered(NETWORK_SIZE, 3)).unwrap();
    let mut network = before.clone();
    let input: Tensor3<f64, 5, 5, 8> = Tensor3::new(numbered(200, 4)).unwrap();
    let trace = network.forward(&input, &relu);
    let outputs: Tensor1<f64, 626> = Tensor1::new(numbered(626, 5)).unwrap();
    let rate = 0.5;
    let derivatives = network.backward(&input, &trace, &outputs, &d_relu, rate);
    // The last layer's biases lose the derivatives times the rate, and its
    // rows the activations scaled by that.
    for b in 0..626 {
        assert_eq!(network.l6_biases.nth(b), before.l6_biases.nth(b) - outputs.nth(b) * rate);
    }
    assert_eq!(
        network.l6_weights[7].nth(3),
        before.l6_weights[7].nth(3) - trace.l5_a.nth(3) * (outputs.nth(7) * rate)
    );
    // What is handed to the layer before is the derivative times the slope
    // at the layer's own value before its activation.
    let handed = derivatives.l5_a.nth(11) * d_relu(trace.l5_x.nth(11));
    assert_eq!(network.l5_biases.nth(11), before.l5_biases.nth(11) - handed * rate);
    let mut dead = 0;
    for b in 0..800 {
        if trace.l5_x.nth(b) < 0. {
            assert_eq!(network.l5_biases.nth(b), before.l5_biases.nth(b));
            dead += 1;
        }
    }
    assert!(dead > 0);
    assert!(network.l1_kernels != before.l1_kernels);
    assert!(network.l2_kernels != before.l2_kernels);
    assert!(network.l3_biases != before.l3_biases);
    assert!(network.l4_kernels != before.l4_kernels);
    assert_eq!(derivatives.input.shape(), (5, 5, 8));
    assert_eq!(derivatives.l4_a.shape(), 1600);
}

#[test]
fn back_prop_at_the_target_changes_nothing() {
    let before = Network::from_save_data(vec![0.0; NETWORK_SIZE]).unwrap();
    let mut network = before.clone();
    let input: Tensor3<f64, 5, 5, 8> = Tensor3::new(vec![0.0; 200]).unwrap();
    let pi: Tensor1<f64, 625> = Tensor1::new(vec![1.0 / 625.0; 625]).unwrap();
    let loss = back_prop(&mut network, &input, &pi, 0.0);
    assert!((loss - 6.437751649736401).abs() < 1e-9);
    assert_eq!(network, before);
    assert!(network.get_save_data().iter().all(|x| *x == 0.0));
}

#[test]
fn back_prop_moves_towards_the_target() {
    let mut network = Network::from_save_data(numbered(NETWORK_SIZE, 7)).unwrap();
    let input: Tensor3<f64, 5, 5, 8> = Tensor3::new(numbered(200, 8)).unwrap();
    let mut target = vec![0.0; 625];
    target[17] = 1.0;
    let pi: Tensor1<f64, 625> = Tensor1::new(target).unwrap();
    let first = back_prop(&mut network, &input, &pi, 0.5);
    let mut last = first;
    for _ in 0..3 {
        last = back_prop(&mut network, &input, &pi, 0.5);
    }
    assert!(last < first);
}
