use alphazero::codec::{decode, encode, DecodeError};

#[test]
fn encode_writes_the_count_and_each_word_least_significant_byte_first() {
    assert_eq!(encode(&vec![]), vec![0, 0, 0, 0, 0, 0, 0, 0]);
    assert_eq!(
        encode(&vec![1, 0x0102030405060708]),
        vec![2, 0, 0, 0, 0, 0, 0, 0, 1, 0, 0, 0, 0, 0, 0, 0, 8, 7, 6, 5, 4, 3, 2, 1]
    );
}

#[test]
fn encode_of_float_bits_is_the_encoding_of_the_floats() {
    let floats = vec![1.5f64, -0.0, f64::INFINITY, 1e-300];
    let bits: Vec<u64> = floats.iter().map(|x| x.to_bits()).collect();
    assert_eq!(encode(&bits), bincode::serialize(&floats).unwrap());
}

#[test]
fn decode_reads_back_what_encode_wrote() {
    let words = vec![0, 1, u64::MAX, 0x8000000000000000, 42];
    assert_eq!(decode(&encode(&words)), Ok(words));
    assert_eq!(decode(&encode(&vec![])), Ok(vec![]));
}

#[test]
fn decode_accepts_bytes_left_over() {
    let mut bytes = encode(&vec![7, 8]);
    bytes.push(99);
    assert_eq!(decode(&bytes), Ok(vec![7, 8]));
}

#[test]
fn decode_refuses_bytes_that_end_too_early() {
    assert_eq!(decode(&vec![]), Err(DecodeError::Truncated));
    assert_eq!(decode(&vec![1, 0, 0, 0, 0, 0, 0]), Err(DecodeError::Truncated));
    assert_eq!(decode(&vec![1, 0, 0, 0, 0, 0, 0, 0]), Err(DecodeError::Truncated));
    assert_eq!(
        decode(&vec![1, 0, 0, 0, 0, 0, 0, 0, 1, 2, 3, 4, 5, 6, 7]),
        Err(DecodeError::Truncated)
    );
    assert_eq!(
        decode(&vec![255, 255, 255, 255, 255, 255, 255, 255, 1, 2, 3, 4, 5, 6, 7, 8]),
        Err(DecodeError::Truncated)
    );
    let mut bytes = encode(&vec![7, 8]);
    bytes.pop();
    assert_eq!(decode(&bytes), Err(DecodeError::Truncated));
}
