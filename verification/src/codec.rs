//! Sequences of 64-bit words as bytes.
//!
//! The bytes are those of bincode's fixed-width little-endian format: the
//! count of the words as eight bytes, then each word as eight bytes, least
//! significant byte first.

use vstd::bytes::lemma_auto_spec_u64_to_from_le_bytes;
use vstd::bytes::spec_u64_from_le_bytes;
use vstd::bytes::spec_u64_to_le_bytes;
use vstd::pervasive::unreached;
use vstd::prelude::*;

verus! {

/// The bytes that stand for `words`.
pub open spec fn encoding(words: Seq<u64>) -> Seq<u8> {
    spec_u64_to_le_bytes(words.len() as u64) + Seq::new(
        8 * words.len(),
        |i: int| spec_u64_to_le_bytes(words[i / 8])[i % 8],
    )
}

/// The count of words that the first eight bytes announce.
pub open spec fn announced(bytes: Seq<u8>) -> nat {
    spec_u64_from_le_bytes(bytes.subrange(0, 8)) as nat
}

/// `bytes` start with a count and hold at least as many words after it.
pub open spec fn decodable(bytes: Seq<u8>) -> bool {
    bytes.len() >= 8 && 8 + 8 * announced(bytes) <= bytes.len()
}

/// The words that `bytes` stand for; what follows them is not looked at.
pub open spec fn decoding(bytes: Seq<u8>) -> Seq<u64> {
    Seq::new(
        announced(bytes),
        |i: int| spec_u64_from_le_bytes(bytes.subrange(8 + 8 * i, 16 + 8 * i)),
    )
}

/// Why bytes could not be read back.
#[derive(Clone, Copy, Debug, PartialEq, Eq)]
pub enum DecodeError {
    /// The bytes end before the words they announce.
    Truncated,
}

/// `bincode::ErrorKind`, which is carried through and not looked into.
#[verifier::external_type_specification]
#[verifier::external_body]
pub struct ExErrorKind(bincode::ErrorKind);

/// `bincode::serialize` on a vector of words. With its fixed-width
/// little-endian options and no size limit, writing into memory, it
/// succeeds and gives the count as eight bytes and then each word as eight
/// bytes.
#[verifier::external_body]
fn serialize_words(words: &Vec<u64>) -> (r: Result<Vec<u8>, Box<bincode::ErrorKind>>)
    ensures
        r is Ok,
        r->Ok_0@ == encoding(words@),
{
    bincode::serialize(words)
}

/// `bincode::deserialize` to a vector of words. It reads the count and
/// then that many words of eight bytes each, fails where the bytes end
/// before that, and accepts bytes left over.
#[verifier::external_body]
fn deserialize_words(bytes: &Vec<u8>) -> (r: Result<Vec<u64>, Box<bincode::ErrorKind>>)
    ensures
        r is Ok <==> decodable(bytes@),
        r is Ok ==> r->Ok_0@ == decoding(bytes@),
{
    bincode::deserialize(bytes.as_slice())
}

/// The bytes that stand for `words`.
pub fn encode(words: &Vec<u64>) -> (r: Vec<u8>)
    ensures
        r@ == encoding(words@),
{
    match serialize_words(words) {
        Ok(bytes) => bytes,
        Err(_) => unreached(),
    }
}

/// The words that `bytes` stand for.
pub fn decode(bytes: &Vec<u8>) -> (r: Result<Vec<u64>, DecodeError>)
    ensures
        r is Ok <==> decodable(bytes@),
        r is Ok ==> r->Ok_0@ == decoding(bytes@),
        r is Err ==> r->Err_0 == DecodeError::Truncated,
{
    match deserialize_words(bytes) {
        Ok(words) => Ok(words),
        Err(_) => Err(DecodeError::Truncated),
    }
}

/// Decoding what was encoded gives the words back.
pub proof fn lemma_decode_encode(words: Seq<u64>)
    requires
        words.len() <= u64::MAX,
    ensures
        decodable(encoding(words)),
        decoding(encoding(words)) == words,
{
    lemma_auto_spec_u64_to_from_le_bytes();
    let bytes = encoding(words);
    let head = spec_u64_to_le_bytes(words.len() as u64);
    assert(head.len() == 8);
    assert(bytes.subrange(0, 8) =~= head);
    assert(announced(bytes) == words.len());
    assert forall|i: int| 0 <= i < words.len() implies #[trigger] decoding(bytes)[i]
        == words[i] by {
        let word = spec_u64_to_le_bytes(words[i]);
        assert(word.len() == 8);
        assert forall|k: int| 0 <= k < 8 implies bytes.subrange(8 + 8 * i, 16 + 8 * i)[k]
            == word[k] by {
            assert((8 * i + k) / 8 == i && (8 * i + k) % 8 == k);
        }
        assert(bytes.subrange(8 + 8 * i, 16 + 8 * i) =~= word);
    }
    assert(decoding(bytes) =~= words);
}

} // verus!
