//! The parameters of the policy and value network, and their flat form.
//!
//! Four convolution layers of 64 kernels each work on planes of five by
//! five; two fully connected layers follow, the last with 626 outputs: one
//! for each of the 625 moves and one for the position's value.

use vstd::pervasive::unreached;
use vstd::prelude::*;
use crate::codec::decodable;
use crate::codec::decode;
use crate::codec::decoding;
use crate::codec::encode;
use crate::codec::encoding;
use crate::codec::lemma_decode_encode;
use crate::elementwise::map_each;
use crate::elementwise::mapped;
use crate::index::lemma_index2;
use crate::index::lemma_split2;
use crate::tensor::Tensor;
use crate::tensor::Tensor1;
use crate::tensor::Tensor3;

verus! {

/// The number of kernels of each convolution layer.
pub const KERNELS: usize = 64;

/// The number of outputs of the first fully connected layer.
pub const HIDDEN: usize = 800;

/// The number of outputs of the network.
pub const OUTPUTS: usize = 626;

/// The number of parameters of the network.
pub const NETWORK_SIZE: usize = 3 * 3 * 8 * 64 + 5 * 5 * 64 + 3 * 3 * 64 * 64 + 5 * 5 * 64 + 3 * 3
    * 64 * 64 + 5 * 5 * 64 + 3 * 3 * 64 * 64 + 5 * 5 * 64 + 1600 * 800 + 800 + 800 * 626 + 626;

/// The stores of the tensors of a list, in order.
pub open spec fn views<T: Copy, G: Tensor<T>>(ts: Seq<G>) -> Seq<Seq<T>> {
    Seq::new(ts.len(), |i: int| ts[i]@)
}

/// The parts, each of `size` elements, one after the other.
pub open spec fn join_all<T>(parts: Seq<Seq<T>>, size: int) -> Seq<T> {
    Seq::new((parts.len() * size) as nat, |i: int| parts[i / size][i % size])
}

/// Every tensor of the list holds as many elements as its shape says.
pub open spec fn all_wf<T: Copy, G: Tensor<T>>(ts: Seq<G>) -> bool {
    forall|i: int| 0 <= i < ts.len() ==> (#[trigger] ts[i]).wf()
}

/// Two joins of parts of one size are equal only if the parts are.
pub proof fn lemma_join_all_injective<T>(a: Seq<Seq<T>>, b: Seq<Seq<T>>, size: int)
    requires
        size > 0,
        a.len() == b.len(),
        forall|i: int| 0 <= i < a.len() ==> (#[trigger] a[i]).len() == size,
        forall|i: int| 0 <= i < b.len() ==> (#[trigger] b[i]).len() == size,
        join_all(a, size) == join_all(b, size),
    ensures
        a == b,
{
    assert forall|i: int| 0 <= i < a.len() implies a[i] == b[i] by {
        assert forall|k: int| 0 <= k < size implies a[i][k] == b[i][k] by {
            lemma_index2(k, i, size, a.len() as int);
            assert(a.len() * size == size * a.len()) by (nonlinear_arith);
            assert(join_all(a, size)[i * size + k] == a[i][k]);
            assert(join_all(b, size)[i * size + k] == b[i][k]);
        }
        assert(a[i] =~= b[i]);
    }
    assert(a =~= b);
}

/// Appends the elements of `more` to `out`.
pub fn append_store<T: Copy>(out: &mut Vec<T>, more: &Vec<T>)
    ensures
        final(out)@ == old(out)@ + more@,
{
    let mut i: usize = 0;
    while i < more.len()
        invariant
            i <= more@.len(),
            out@ == old(out)@ + more@.subrange(0, i as int),
        decreases more@.len() - i,
    {
        out.push(more[i]);
        assert(out@ =~= old(out)@ + more@.subrange(0, i + 1));
        i += 1;
    }
    assert(more@.subrange(0, more@.len() as int) =~= more@);
}

/// Appends to `out` the stores of the tensors of `ts`, in order.
pub fn append_all<T: Copy, G: Tensor<T>>(out: &mut Vec<T>, ts: &Vec<G>)
    requires
        all_wf(ts@),
    ensures
        final(out)@ == old(out)@ + join_all(views(ts@), G::volume() as int),
{
    let ghost size = G::volume() as int;
    let mut n: usize = 0;
    proof {
        assert(0 * size == 0) by (nonlinear_arith);
        assert(join_all(views(ts@.subrange(0, 0)), size) =~= Seq::<T>::empty());
        assert(old(out)@ + Seq::<T>::empty() =~= old(out)@);
    }
    while n < ts.len()
        invariant
            n <= ts@.len(),
            size == G::volume(),
            all_wf(ts@),
            out@ == old(out)@ + join_all(views(ts@.subrange(0, n as int)), size),
        decreases ts@.len() - n,
    {
        let ghost before = out@;
        append_store(out, ts[n].get_data_ref());
        proof {
            assert(ts@[n as int].wf());
            ts@[n as int].lemma_wf();
            let shorter = views(ts@.subrange(0, n as int));
            let longer = views(ts@.subrange(0, n + 1));
            assert((n + 1) * size == n * size + size && (n + 1) * size == size * (n + 1) && 0 <= n
                * size) by (nonlinear_arith)
                requires
                    0 <= n,
                    0 <= size,
            ;
            assert forall|i: int| 0 <= i < (n + 1) * size implies join_all(longer, size)[i] == (
            join_all(shorter, size) + ts@[n as int]@)[i] by {
                lemma_split2(i, size, n + 1);
                if i >= n * size {
                    lemma_index2(i - n * size, n as int, size, n + 1);
                } else {
                    assert(n * size == size * n) by (nonlinear_arith);
                    lemma_split2(i, size, n as int);
                }
            }
            assert(join_all(longer, size) =~= join_all(shorter, size) + ts@[n as int]@);
            assert(out@ =~= old(out)@ + join_all(longer, size));
        }
        n += 1;
    }
    assert(ts@.subrange(0, ts@.len() as int) =~= ts@);
}

/// The tensor whose store is the `size` elements of `data` from `start` on.
pub fn take_one<T: Copy, G: Tensor<T>>(data: &Vec<T>, start: usize, size: usize) -> (r: G)
    requires
        size == G::volume(),
        start + size <= data@.len(),
    ensures
        r.wf(),
        r@ == data@.subrange(start as int, start + size),
{
    let total: usize = data.len();
    let mut store: Vec<T> = Vec::new();
    let mut i: usize = 0;
    while i < size
        invariant
            i <= size,
            total == data@.len(),
            start + size <= data@.len(),
            store@ == data@.subrange(start as int, start + i),
        decreases size - i,
    {
        store.push(data[start + i]);
        assert(store@ =~= data@.subrange(start as int, start + i + 1));
        i += 1;
    }
    match G::new(store) {
        Ok(r) => r,
        Err(_) => unreached(),
    }
}

/// `count` tensors whose stores are, one after the other, the elements of
/// `data` from `start` on.
pub fn take_all<T: Copy, G: Tensor<T>>(data: &Vec<T>, start: usize, count: usize, size: usize) -> (r:
    Vec<G>)
    requires
        size == G::volume(),
        start + count * size <= data@.len(),
    ensures
        r@.len() == count,
        all_wf(r@),
        join_all(views(r@), size as int) == data@.subrange(start as int, start + count * size),
{
    let total: usize = data.len();
    let mut out: Vec<G> = Vec::new();
    let mut n: usize = 0;
    while n < count
        invariant
            n <= count,
            size == G::volume(),
            total == data@.len(),
            start + count * size <= data@.len(),
            out@.len() == n,
            all_wf(out@),
            forall|i: int|
                0 <= i < n ==> (#[trigger] out@[i])@ == data@.subrange(
                    start + i * size,
                    start + i * size + size,
                ),
        decreases count - n,
    {
        proof {
            assert(n * size + size <= count * size && 0 <= n * size) by (nonlinear_arith)
                requires
                    0 <= n < count,
                    0 <= size,
            ;
        }
        let one: G = take_one(data, start + n * size, size);
        out.push(one);
        n += 1;
    }
    proof {
        let joined = join_all(views(out@), size as int);
        let wanted = data@.subrange(start as int, start + count * size);
        assert(0 <= count * size) by (nonlinear_arith)
            requires
                0 <= count,
                0 <= size,
        ;
        assert(joined.len() == count * size);
        assert(wanted.len() == count * size);
        assert forall|i: int| 0 <= i < count * size implies joined[i] == wanted[i] by {
            assert(count * size == size * count) by (nonlinear_arith);
            lemma_split2(i, size as int, count as int);
            let part = i / (size as int);
            let at = i % (size as int);
            assert(out@[part]@ == data@.subrange(start + part * size, start + part * size + size));
            assert(views(out@)[part] == out@[part]@);
            assert(joined[i] == views(out@)[part][at]);
            assert(part * size + size <= count * size && 0 <= part * size) by (nonlinear_arith)
                requires
                    0 <= part < count,
                    0 <= size,
            ;
            assert(out@[part]@[at] == data@[start + part * size + at]);
        }
        assert(joined =~= wanted);
    }
    out
}

/// The parameters of the network.
#[derive(Clone, Debug, PartialEq)]
pub struct Network<T> {
    pub l1_kernels: Vec<Tensor3<T, 3, 3, 8>>,
    pub l1_biases: Tensor3<T, 5, 5, 64>,
    pub l2_kernels: Vec<Tensor3<T, 3, 3, 64>>,
    pub l2_biases: Tensor3<T, 5, 5, 64>,
    pub l3_kernels: Vec<Tensor3<T, 3, 3, 64>>,
    pub l3_biases: Tensor3<T, 5, 5, 64>,
    pub l4_kernels: Vec<Tensor3<T, 3, 3, 64>>,
    pub l4_biases: Tensor3<T, 5, 5, 64>,
    pub l5_weights: Vec<Tensor1<T, 1600>>,
    pub l5_biases: Tensor1<T, 800>,
    pub l6_weights: Vec<Tensor1<T, 800>>,
    pub l6_biases: Tensor1<T, 626>,
}

/// Why a flat form was not taken as a network.
#[derive(Clone, Copy, Debug, PartialEq, Eq)]
pub enum NetworkError {
    /// The number of values is not the number of parameters.
    WrongSize,
    /// The bytes end before the values they announce.
    Truncated,
}

impl<T: Copy> Network<T> {
    /// Every layer has its number of tensors, each of its shape.
    pub open spec fn wf(&self) -> bool {
        &&& self.l1_kernels@.len() == KERNELS && all_wf(self.l1_kernels@)
        &&& self.l1_biases.wf()
        &&& self.l2_kernels@.len() == KERNELS && all_wf(self.l2_kernels@)
        &&& self.l2_biases.wf()
        &&& self.l3_kernels@.len() == KERNELS && all_wf(self.l3_kernels@)
        &&& self.l3_biases.wf()
        &&& self.l4_kernels@.len() == KERNELS && all_wf(self.l4_kernels@)
        &&& self.l4_biases.wf()
        &&& self.l5_weights@.len() == HIDDEN && all_wf(self.l5_weights@)
        &&& self.l5_biases.wf()
        &&& self.l6_weights@.len() == OUTPUTS && all_wf(self.l6_weights@)
        &&& self.l6_biases.wf()
    }

    /// All parameters in one sequence: layer after layer, a layer's kernels
    /// or weights before its biases.
    pub open spec fn flat(&self) -> Seq<T> {
        join_all(views(self.l1_kernels@), 72) + self.l1_biases@ + join_all(
            views(self.l2_kernels@),
            576,
        ) + self.l2_biases@ + join_all(views(self.l3_kernels@), 576) + self.l3_biases@ + join_all(
            views(self.l4_kernels@),
            576,
        ) + self.l4_biases@ + join_all(views(self.l5_weights@), 1600) + self.l5_biases@ + join_all(
            views(self.l6_weights@),
            800,
        ) + self.l6_biases@
    }

    /// The two networks hold the same parameters, tensor by tensor.
    pub open spec fn same_parameters(&self, other: &Self) -> bool {
        &&& views(self.l1_kernels@) == views(other.l1_kernels@)
        &&& self.l1_biases@ == other.l1_biases@
        &&& views(self.l2_kernels@) == views(other.l2_kernels@)
        &&& self.l2_biases@ == other.l2_biases@
        &&& views(self.l3_kernels@) == views(other.l3_kernels@)
        &&& self.l3_biases@ == other.l3_biases@
        &&& views(self.l4_kernels@) == views(other.l4_kernels@)
        &&& self.l4_biases@ == other.l4_biases@
        &&& views(self.l5_weights@) == views(other.l5_weights@)
        &&& self.l5_biases@ == other.l5_biases@
        &&& views(self.l6_weights@) == views(other.l6_weights@)
        &&& self.l6_biases@ == other.l6_biases@
    }

    /// All parameters in one store, in the order of `flat`.
    pub fn get_save_data(&self) -> (r: Vec<T>)
        requires
            self.wf(),
        ensures
            r@ == self.flat(),
            r@.len() == NETWORK_SIZE,
    {
        let mut data: Vec<T> = Vec::new();
        proof {
            Tensor3::<T, 3, 3, 8>::lemma_volume();
            Tensor3::<T, 3, 3, 64>::lemma_volume();
            Tensor3::<T, 5, 5, 64>::lemma_volume();
            assert(data@ =~= Seq::<T>::empty());
        }
        append_all(&mut data, &self.l1_kernels);
        append_store(&mut data, self.l1_biases.get_data_ref());
        append_all(&mut data, &self.l2_kernels);
        append_store(&mut data, self.l2_biases.get_data_ref());
        append_all(&mut data, &self.l3_kernels);
        append_store(&mut data, self.l3_biases.get_data_ref());
        append_all(&mut data, &self.l4_kernels);
        append_store(&mut data, self.l4_biases.get_data_ref());
        append_all(&mut data, &self.l5_weights);
        append_store(&mut data, self.l5_biases.get_data_ref());
        append_all(&mut data, &self.l6_weights);
        append_store(&mut data, self.l6_biases.get_data_ref());
        assert(data@ =~= self.flat());
        data
    }

    /// The network whose parameters, in the order of `flat`, are `data`.
    pub fn from_save_data(data: Vec<T>) -> (r: Result<Network<T>, NetworkError>)
        ensures
            r is Ok <==> data@.len() == NETWORK_SIZE,
            r is Ok ==> r->Ok_0.wf() && r->Ok_0.flat() == data@,
            r is Err ==> r->Err_0 == NetworkError::WrongSize,
    {
        if data.len() != NETWORK_SIZE {
            return Err(NetworkError::WrongSize);
        }
        proof {
            Tensor3::<T, 3, 3, 8>::lemma_volume();
            Tensor3::<T, 3, 3, 64>::lemma_volume();
            Tensor3::<T, 5, 5, 64>::lemma_volume();
        }
        let l1_kernels: Vec<Tensor3<T, 3, 3, 8>> = take_all(&data, 0, 64, 72);
        let l1_biases: Tensor3<T, 5, 5, 64> = take_one(&data, 4608, 1600);
        let l2_kernels: Vec<Tensor3<T, 3, 3, 64>> = take_all(&data, 6208, 64, 576);
        let l2_biases: Tensor3<T, 5, 5, 64> = take_one(&data, 43072, 1600);
        let l3_kernels: Vec<Tensor3<T, 3, 3, 64>> = take_all(&data, 44672, 64, 576);
        let l3_biases: Tensor3<T, 5, 5, 64> = take_one(&data, 81536, 1600);
        let l4_kernels: Vec<Tensor3<T, 3, 3, 64>> = take_all(&data, 83136, 64, 576);
        let l4_biases: Tensor3<T, 5, 5, 64> = take_one(&data, 120000, 1600);
        let l5_weights: Vec<Tensor1<T, 1600>> = take_all(&data, 121600, 800, 1600);
        let l5_biases: Tensor1<T, 800> = take_one(&data, 1401600, 800);
        let l6_weights: Vec<Tensor1<T, 800>> = take_all(&data, 1402400, 626, 800);
        let l6_biases: Tensor1<T, 626> = take_one(&data, 1903200, 626);
        let network = Network {
            l1_kernels,
            l1_biases,
            l2_kernels,
            l2_biases,
            l3_kernels,
            l3_biases,
            l4_kernels,
            l4_biases,
            l5_weights,
            l5_biases,
            l6_weights,
            l6_biases,
        };
        assert(network.flat() =~= data@);
        Ok(network)
    }

    /// Two networks with one flat form hold the same parameters: what
    /// `from_save_data` makes of what `get_save_data` gave is the network
    /// that was saved.
    pub proof fn lemma_flat_determines_parameters(&self, other: &Self)
        requires
            self.wf(),
            other.wf(),
            self.flat() == other.flat(),
        ensures
            self.same_parameters(other),
    {
        Tensor3::<T, 3, 3, 8>::lemma_volume();
        Tensor3::<T, 3, 3, 64>::lemma_volume();
        Tensor3::<T, 5, 5, 64>::lemma_volume();
        let a = self.flat();
        let b = other.flat();
        assert(a.subrange(0, 4608) =~= join_all(views(self.l1_kernels@), 72));
        assert(b.subrange(0, 4608) =~= join_all(views(other.l1_kernels@), 72));
        assert(a.subrange(4608, 6208) =~= self.l1_biases@);
        assert(b.subrange(4608, 6208) =~= other.l1_biases@);
        assert(a.subrange(6208, 43072) =~= join_all(views(self.l2_kernels@), 576));
        assert(b.subrange(6208, 43072) =~= join_all(views(other.l2_kernels@), 576));
        assert(a.subrange(43072, 44672) =~= self.l2_biases@);
        assert(b.subrange(43072, 44672) =~= other.l2_biases@);
        assert(a.subrange(44672, 81536) =~= join_all(views(self.l3_kernels@), 576));
        assert(b.subrange(44672, 81536) =~= join_all(views(other.l3_kernels@), 576));
        assert(a.subrange(81536, 83136) =~= self.l3_biases@);
        assert(b.subrange(81536, 83136) =~= other.l3_biases@);
        assert(a.subrange(83136, 120000) =~= join_all(views(self.l4_kernels@), 576));
        assert(b.subrange(83136, 120000) =~= join_all(views(other.l4_kernels@), 576));
        assert(a.subrange(120000, 121600) =~= self.l4_biases@);
        assert(b.subrange(120000, 121600) =~= other.l4_biases@);
        assert(a.subrange(121600, 1401600) =~= join_all(views(self.l5_weights@), 1600));
        assert(b.subrange(121600, 1401600) =~= join_all(views(other.l5_weights@), 1600));
        assert(a.subrange(1401600, 1402400) =~= self.l5_biases@);
        assert(b.subrange(1401600, 1402400) =~= other.l5_biases@);
        assert(a.subrange(1402400, 1903200) =~= join_all(views(self.l6_weights@), 800));
        assert(b.subrange(1402400, 1903200) =~= join_all(views(other.l6_weights@), 800));
        assert(a.subrange(1903200, 1903826) =~= self.l6_biases@);
        assert(b.subrange(1903200, 1903826) =~= other.l6_biases@);
        lemma_join_all_injective(views(self.l1_kernels@), views(other.l1_kernels@), 72);
        lemma_join_all_injective(views(self.l2_kernels@), views(other.l2_kernels@), 576);
        lemma_join_all_injective(views(self.l3_kernels@), views(other.l3_kernels@), 576);
        lemma_join_all_injective(views(self.l4_kernels@), views(other.l4_kernels@), 576);
        lemma_join_all_injective(views(self.l5_weights@), views(other.l5_weights@), 1600);
        lemma_join_all_injective(views(self.l6_weights@), views(other.l6_weights@), 800);
    }
}

/// Whatever `back` makes of a result of `to` is what `to` was given.
pub open spec fn inverts<T, U, F: Fn(T) -> U, B: Fn(U) -> T>(to: F, back: B) -> bool {
    forall|x: T, word: U, y: T|
        #![trigger call_ensures(to, (x,), word), call_ensures(back, (word,), y)]
        call_ensures(to, (x,), word) && call_ensures(back, (word,), y) ==> y == x
}

impl<T: Copy> Network<T> {
    /// The parameters as bytes: the encoding of the words that `word_of`
    /// makes of the flat form.
    pub fn to_bytes<F: Fn(T) -> u64>(&self, word_of: &F) -> (r: Vec<u8>)
        requires
            self.wf(),
            forall|x: T| #[trigger] call_requires(word_of, (x,)),
        ensures
            exists|words: Seq<u64>| #[trigger]
                mapped(*word_of, self.flat(), words) && r@ == encoding(words),
    {
        let words = map_each(&self.get_save_data(), word_of);
        assert(mapped(*word_of, self.flat(), words@));
        encode(&words)
    }

    /// The network whose parameters are what `value_of` makes of the words
    /// that `bytes` stand for.
    pub fn from_bytes<F: Fn(u64) -> T>(bytes: &Vec<u8>, value_of: &F) -> (r: Result<
        Network<T>,
        NetworkError,
    >)
        requires
            forall|word: u64| #[trigger] call_requires(value_of, (word,)),
        ensures
            r is Ok <==> decodable(bytes@) && decoding(bytes@).len() == NETWORK_SIZE,
            r is Ok ==> r->Ok_0.wf() && mapped(*value_of, decoding(bytes@), r->Ok_0.flat()),
            r is Err ==> r->Err_0 == (if decodable(bytes@) {
                NetworkError::WrongSize
            } else {
                NetworkError::Truncated
            }),
    {
        match decode(bytes) {
            Ok(words) => {
                if words.len() != NETWORK_SIZE {
                    return Err(NetworkError::WrongSize);
                }
                Network::from_save_data(map_each(&words, value_of))
            },
            Err(_) => Err(NetworkError::Truncated),
        }
    }

    /// The bytes of a network stand for that network: where `value_of`
    /// inverts `word_of`, the bytes can be read back, and every network
    /// read back from them holds the parameters that were written.
    pub proof fn lemma_bytes_round_trip<F: Fn(T) -> u64, B: Fn(u64) -> T>(
        &self,
        word_of: F,
        value_of: B,
        words: Seq<u64>,
        back: &Network<T>,
    )
        requires
            self.wf(),
            back.wf(),
            inverts(word_of, value_of),
            mapped(word_of, self.flat(), words),
            mapped(value_of, decoding(encoding(words)), back.flat()),
        ensures
            decodable(encoding(words)),
            decoding(encoding(words)).len() == NETWORK_SIZE,
            back.same_parameters(self),
    {
        Tensor3::<T, 3, 3, 8>::lemma_volume();
        Tensor3::<T, 3, 3, 64>::lemma_volume();
        Tensor3::<T, 5, 5, 64>::lemma_volume();
        lemma_decode_encode(words);
        assert forall|i: int| 0 <= i < self.flat().len() implies back.flat()[i] == self.flat()[i] by {
            assert(call_ensures(word_of, (self.flat()[i],), words[i]));
            assert(call_ensures(value_of, (words[i],), back.flat()[i]));
        }
        assert(back.flat() =~= self.flat());
        back.lemma_flat_determines_parameters(self);
    }
}

impl Network<u64> {
    /// The bytes that stand for a network of words can be read back, and
    /// every network of the words read back holds the parameters that were
    /// written.
    pub proof fn lemma_words_round_trip(&self, back: &Network<u64>)
        requires
            self.wf(),
            back.wf(),
            back.flat() == decoding(encoding(self.flat())),
        ensures
            decodable(encoding(self.flat())),
            decoding(encoding(self.flat())).len() == NETWORK_SIZE,
            back.same_parameters(self),
    {
        Tensor3::<u64, 3, 3, 8>::lemma_volume();
        Tensor3::<u64, 3, 3, 64>::lemma_volume();
        Tensor3::<u64, 5, 5, 64>::lemma_volume();
        lemma_decode_encode(self.flat());
        back.lemma_flat_determines_parameters(self);
    }
}

} // verus!
