use alphazero::network::{Network, NetworkError, NETWORK_SIZE};
use alphazero::tensor::Tensor;

fn numbered() -> Vec<u64> {
    (0..NETWORK_SIZE as u64).map(|i| i.wrapping_mul(0x9E3779B97F4A7C15)).collect()
}

#[test]
fn network_size_is_the_sum_of_the_layers() {
    assert_eq!(NETWORK_SIZE, 1903826);
}

#[test]
fn from_save_data_lays_the_layers_out_in_order() {
    let data: Vec<u32> = (0..NETWORK_SIZE as u32).collect();
    let network = Network::from_save_data(data).unwrap();
    assert_eq!(network.l1_kernels.len(), 64);
    assert_eq!(network.l1_kernels[0].nth(0), 0);
    assert_eq!(network.l1_kernels[1].nth(0), 72);
    assert_eq!(network.l1_kernels[63].nth(71), 4607);
    assert_eq!(network.l1_biases.nth(0), 4608);
    assert_eq!(network.l2_kernels[0].nth(0), 6208);
    assert_eq!(network.l2_biases.nth(0), 43072);
    assert_eq!(network.l3_kernels[0].nth(0), 44672);
    assert_eq!(network.l3_biases.nth(0), 81536);
    assert_eq!(network.l4_kernels[0].nth(0), 83136);
    assert_eq!(network.l4_biases.nth(1599), 121599);
    assert_eq!(network.l5_weights.len(), 800);
    assert_eq!(network.l5_weights[0].nth(0), 121600);
    assert_eq!(network.l5_weights[799].nth(1599), 1401599);
    assert_eq!(network.l5_biases.nth(0), 1401600);
    assert_eq!(network.l6_weights.len(), 626);
    assert_eq!(network.l6_weights[0].nth(0), 1402400);
    assert_eq!(network.l6_biases.nth(0), 1903200);
    assert_eq!(network.l6_biases.nth(625), 1903825);
}

#[test]
fn from_save_data_refuses_another_size() {
    assert!(matches!(
        Network::from_save_data(vec![0u8; NETWORK_SIZE - 1]),
        Err(NetworkError::WrongSize)
    ));
    assert!(matches!(
        Network::from_save_data(vec![0u8; NETWORK_SIZE + 1]),
        Err(NetworkError::WrongSize)
    ));
    assert!(matches!(Network::<u8>::from_save_data(vec![]), Err(NetworkError::WrongSize)));
}

#[test]
fn save_and_load() {
    let orig = Network::from_save_data(numbered()).unwrap();
    let bytes = orig.to_bytes(&|word: u64| word);
    assert_eq!(bytes.len(), 8 + 8 * NETWORK_SIZE);
    let network = Network::from_bytes(&bytes, &|word: u64| word).unwrap();
    assert_eq!(orig.l1_kernels, network.l1_kernels);
    assert_eq!(orig.l1_biases, network.l1_biases);
    assert_eq!(orig.l2_kernels, network.l2_kernels);
    assert_eq!(orig.l2_biases, network.l2_biases);
    assert_eq!(orig.l3_kernels, network.l3_kernels);
    assert_eq!(orig.l3_biases, network.l3_biases);
    assert_eq!(orig.l4_kernels, network.l4_kernels);
    assert_eq!(orig.l4_biases, network.l4_biases);
    assert_eq!(orig.l5_weights, network.l5_weights);
    assert_eq!(orig.l5_biases, network.l5_biases);
    assert_eq!(orig.l6_weights, network.l6_weights);
    assert_eq!(orig.l6_biases, network.l6_biases);
    assert_eq!(network.get_save_data(), numbered());
}

#[test]
fn from_bytes_tells_truncated_bytes_from_a_wrong_size() {
    let same = |word: u64| word;
    assert!(matches!(Network::from_bytes(&vec![1, 2, 3], &same), Err(NetworkError::Truncated)));
    assert!(matches!(
        Network::from_bytes(&alphazero::codec::encode(&vec![1, 2, 3]), &same),
        Err(NetworkError::WrongSize)
    ));
    let mut bytes = Network::from_save_data(numbered()).unwrap().to_bytes(&same);
    bytes.pop();
    assert!(matches!(Network::from_bytes(&bytes, &same), Err(NetworkError::Truncated)));
}

#[test]
fn floats_are_saved_by_their_bits() {
    let values: Vec<f64> = (0..NETWORK_SIZE).map(|i| (i as f64).sin() * 1e3).collect();
    let orig = Network::from_save_data(values.clone()).unwrap();
    let bytes = orig.to_bytes(&|x: f64| x.to_bits());
    assert_eq!(bytes, bincode::serialize(&values).unwrap());
    let network = Network::from_bytes(&bytes, &|word: u64| f64::from_bits(word)).unwrap();
    assert_eq!(orig.l1_kernels, network.l1_kernels);
    assert_eq!(orig.l4_biases, network.l4_biases);
    assert_eq!(orig.l5_weights, network.l5_weights);
    assert_eq!(orig.l6_biases, network.l6_biases);
    assert_eq!(network.get_save_data(), values);
}
