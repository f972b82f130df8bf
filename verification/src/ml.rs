//! Layer passes of a network: fully connected and convolutional.

use core::ops::Add;
use core::ops::Mul;
use core::ops::Sub;
use vstd::prelude::*;
use vstd::std_specs::convert::FromSpec;
use vstd::std_specs::ops::AddSpec;
use vstd::std_specs::ops::MulSpec;
use crate::convolution::plane_taps;
use crate::elementwise::add_each;
use crate::index::lemma_index2;
use crate::index::lemma_split2;
use crate::order::at_least;
use crate::order::exceeds;
use crate::order::greater;
use crate::order::ordered;
use crate::order::reaches;
use crate::numeric::dot;
use crate::numeric::dot_of;
use crate::numeric::dot_prefix_ok;
use crate::numeric::lemma_sum_prefix_same;
use crate::numeric::sum_prefix;
use crate::numeric::is_default;
use crate::numeric::lemma_total_dot;
use crate::numeric::total;
use crate::tensor::repeat;
use crate::tensor::Tensor;
use crate::tensor::Tensor1;
use crate::tensor::Tensor2;
use crate::tensor::Tensor3;
use crate::tensor::TensorError;

verus! {

/// The value that stands for the small number `n`.
pub open spec fn small<T: From<u8>>(n: u8) -> T {
    <T as FromSpec<u8>>::from_spec(n)
}

/// The rectified linear unit: `x` where it is greater than zero, and zero
/// elsewhere.
pub fn relu<T: Copy + PartialOrd + From<u8>>(x: T) -> (r: T)
    requires
        ordered::<T>(),
        <T as FromSpec<u8>>::obeys_from_spec(),
    ensures
        r == (if exceeds(x, small::<T>(0)) {
            x
        } else {
            small::<T>(0)
        }),
{
    let zero = T::from(0u8);
    if greater(&x, &zero) {
        x
    } else {
        zero
    }
}

/// The slope of the rectified linear unit: one where `x` is zero or
/// greater, and zero elsewhere.
pub fn d_relu<T: Copy + PartialOrd + From<u8>>(x: T) -> (r: T)
    requires
        ordered::<T>(),
        <T as FromSpec<u8>>::obeys_from_spec(),
    ensures
        r == (if reaches(x, small::<T>(0)) {
            small::<T>(1)
        } else {
            small::<T>(0)
        }),
{
    let zero = T::from(0u8);
    if at_least(&x, &zero) {
        T::from(1u8)
    } else {
        zero
    }
}

/// The length of the full convolution of `l` values with a kernel of
/// `kern_l`.
pub fn fft_l(l: usize, kern_l: usize) -> (r: usize)
    requires
        1 <= l + kern_l <= usize::MAX + 1,
    ensures
        r == l + kern_l - 1,
{
    if l >= 1 {
        (l - 1) + kern_l
    } else {
        kern_l - 1
    }
}

/// One output of a fully connected layer: from `z`, the dot product of the
/// input with a row of weights, and then the bias.
pub open spec fn dense_at<T: Add<Output = T> + Mul<Output = T>>(
    x: Seq<T>,
    row: Seq<T>,
    bias: T,
    z: T,
) -> T {
    dot(z, x, row).add_spec(bias)
}

/// Every product and sum of `dense_at` is one that `T` allows.
pub open spec fn dense_ok<T: Add<Output = T> + Mul<Output = T>>(
    x: Seq<T>,
    row: Seq<T>,
    bias: T,
    z: T,
) -> bool {
    dot_prefix_ok(z, x, row, row.len()) && dot(z, x, row).add_req(bias)
}

impl<T: Copy, const L: usize> Tensor1<T, L> {
    /// Every product and sum of a fully connected pass from `z` is one
    /// that `T` allows.
    pub open spec fn fully_connected_ok(
        &self,
        weights: Seq<Tensor1<T, L>>,
        biases: Seq<T>,
        z: T,
    ) -> bool where T: Add<Output = T> + Mul<Output = T> {
        forall|n: int|
            0 <= n < weights.len() ==> dense_ok(self@, (#[trigger] weights[n])@, biases[n], z)
    }

    /// A fully connected layer: one output for each row of weights.
    pub fn fully_connected_pass<const N: usize>(
        &self,
        weights: &Vec<Tensor1<T, L>>,
        biases: &Tensor1<T, N>,
    ) -> (r: Tensor1<T, N>) where T: Add<Output = T> + Mul<Output = T> + Default
        requires
            self.wf(),
            biases.wf(),
            weights@.len() == N,
            forall|n: int| 0 <= n < N ==> (#[trigger] weights@[n]).wf(),
            T::obeys_add_spec(),
            T::obeys_mul_spec(),
            forall|z: T| is_default(z) ==> self.fully_connected_ok(weights@, biases@, z),
        ensures
            r.wf(),
            exists|z: T|
                is_default(z) && forall|n: int|
                    0 <= n < N ==> r@[n] == dense_at(self@, weights@[n]@, biases@[n], z),
    {
        let zero = T::default();
        assert(is_default(zero));
        let x = self.get_data_ref();
        let b = biases.get_data_ref();
        let mut data: Vec<T> = Vec::new();
        let mut n: usize = 0;
        while n < N
            invariant
                n <= N,
                x@ == self@,
                b@ == biases@,
                self@.len() == L,
                biases@.len() == N,
                weights@.len() == N,
                forall|n: int| 0 <= n < N ==> (#[trigger] weights@[n]).wf(),
                T::obeys_add_spec(),
                T::obeys_mul_spec(),
                self.fully_connected_ok(weights@, biases@, zero),
                data@.len() == n,
                forall|m: int|
                    0 <= m < n ==> data@[m] == dense_at(self@, weights@[m]@, biases@[m], zero),
            decreases N - n,
        {
            let row = weights[n].get_data_ref();
            assert(weights@[n as int].wf());
            assert(dense_ok(self@, weights@[n as int]@, biases@[n as int], zero));
            let sum = dot_of(zero, x, row);
            data.push(sum + b[n]);
            n += 1;
        }
        Tensor1::from_parts(data)
    }

    /// The first `M` elements and the last one.
    pub fn split_last<const M: usize>(&self) -> (r: Result<(Tensor1<T, M>, T), TensorError>)
        requires
            self.wf(),
        ensures
            r is Ok <==> M + 1 == L,
            r is Ok ==> r->Ok_0.0.wf() && r->Ok_0.0@ == self@.drop_last() && r->Ok_0.1
                == self@.last(),
            r is Err ==> r->Err_0 == TensorError::ShapeMismatch,
    {
        if L == 0 || L - 1 != M {
            return Err(TensorError::ShapeMismatch);
        }
        let last = self.nth(L - 1);
        match self.slice::<M>(0) {
            Ok(front) => {
                assert(front@ =~= self@.drop_last());
                Ok((front, last))
            },
            Err(_) => vstd::pervasive::unreached(),
        }
    }
}

/// Plane `ch` of a store made of planes of `size` elements each.
pub open spec fn plane_of<T>(store: Seq<T>, size: int, ch: int) -> Seq<T> {
    store.subrange(ch * size, (ch + 1) * size)
}

/// The values of plane `ch` of an input of `d1` columns and `d2` rows that
/// a centred kernel of `k1` columns and `k2` rows meets at position `o`.
pub open spec fn channel_taps<T>(
    input: Seq<T>,
    d1: int,
    d2: int,
    k1: int,
    k2: int,
    ch: int,
    z: T,
    o: int,
) -> Seq<T> {
    plane_taps(
        plane_of(input, d1 * d2, ch),
        d1,
        d2,
        o,
        d1,
        k1,
        (k1 * k2) as nat,
        -(k1 / 2),
        -(k2 / 2),
        z,
    )
}

/// Position `o` of the centred convolution of plane `ch` of the input
/// with plane `ch` of the kernel, from `z`.
pub open spec fn channel_conv<T: Add<Output = T> + Mul<Output = T>>(
    input: Seq<T>,
    d1: int,
    d2: int,
    kernel: Seq<T>,
    k1: int,
    k2: int,
    ch: int,
    z: T,
    o: int,
) -> T {
    dot(z, channel_taps(input, d1, d2, k1, k2, ch, z, o), plane_of(kernel, k1 * k2, ch))
}

/// Position `o` of the sum, from `z`, of the first `chs` channels'
/// convolutions.
pub open spec fn channels_prefix<T: Add<Output = T> + Mul<Output = T>>(
    input: Seq<T>,
    d1: int,
    d2: int,
    kernel: Seq<T>,
    k1: int,
    k2: int,
    z: T,
    o: int,
    chs: nat,
) -> T
    decreases chs,
{
    if chs == 0 {
        z
    } else {
        channels_prefix(input, d1, d2, kernel, k1, k2, z, o, (chs - 1) as nat).add_spec(
            channel_conv(input, d1, d2, kernel, k1, k2, chs - 1, z, o),
        )
    }
}

/// Every product and sum of `channels_prefix` is one that `T` allows.
pub open spec fn channels_prefix_ok<T: Add<Output = T> + Mul<Output = T>>(
    input: Seq<T>,
    d1: int,
    d2: int,
    kernel: Seq<T>,
    k1: int,
    k2: int,
    z: T,
    o: int,
    chs: nat,
) -> bool
    decreases chs,
{
    chs == 0 || (channels_prefix_ok(input, d1, d2, kernel, k1, k2, z, o, (chs - 1) as nat)
        && dot_prefix_ok(
        z,
        channel_taps(input, d1, d2, k1, k2, chs - 1, z, o),
        plane_of(kernel, k1 * k2, chs - 1),
        (k1 * k2) as nat,
    ) && channels_prefix(input, d1, d2, kernel, k1, k2, z, o, (chs - 1) as nat).add_req(
        channel_conv(input, d1, d2, kernel, k1, k2, chs - 1, z, o),
    ))
}

/// What an allowed sum over channels allows of channel `ch`.
pub proof fn lemma_channel_step<T: Add<Output = T> + Mul<Output = T>>(
    input: Seq<T>,
    d1: int,
    d2: int,
    kernel: Seq<T>,
    k1: int,
    k2: int,
    z: T,
    o: int,
    chs: nat,
    ch: nat,
)
    requires
        channels_prefix_ok(input, d1, d2, kernel, k1, k2, z, o, chs),
        ch < chs,
    ensures
        dot_prefix_ok(
            z,
            channel_taps(input, d1, d2, k1, k2, ch as int, z, o),
            plane_of(kernel, k1 * k2, ch as int),
            (k1 * k2) as nat,
        ),
        channels_prefix(input, d1, d2, kernel, k1, k2, z, o, ch).add_req(
            channel_conv(input, d1, d2, kernel, k1, k2, ch as int, z, o),
        ),
        channels_prefix(input, d1, d2, kernel, k1, k2, z, o, ch + 1) == channels_prefix(
            input,
            d1,
            d2,
            kernel,
            k1,
            k2,
            z,
            o,
            ch,
        ).add_spec(channel_conv(input, d1, d2, kernel, k1, k2, ch as int, z, o)),
    decreases chs,
{
    if ch + 1 < chs {
        lemma_channel_step(input, d1, d2, kernel, k1, k2, z, o, (chs - 1) as nat, ch);
    }
}

/// Where every operand is allowed, every sum over channels is.
pub proof fn lemma_total_channels<T: Add<Output = T> + Sub<Output = T> + Mul<Output = T>>(
    input: Seq<T>,
    d1: int,
    d2: int,
    kernel: Seq<T>,
    k1: int,
    k2: int,
    z: T,
    o: int,
    chs: nat,
)
    requires
        total::<T>(),
    ensures
        channels_prefix_ok(input, d1, d2, kernel, k1, k2, z, o, chs),
    decreases chs,
{
    if chs > 0 {
        lemma_total_channels(input, d1, d2, kernel, k1, k2, z, o, (chs - 1) as nat);
        lemma_total_dot(
            z,
            channel_taps(input, d1, d2, k1, k2, chs - 1, z, o),
            plane_of(kernel, k1 * k2, chs - 1),
            (k1 * k2) as nat,
        );
    }
}

impl<T: Copy, const D1: usize, const D2: usize, const D3: usize> Tensor3<T, D1, D2, D3> {
    /// Plane `ch` as a tensor of rank two.
    pub fn channel(&self, ch: usize) -> (r: Tensor2<T, D1, D2>)
        requires
            self.wf(),
            ch < D3,
        ensures
            r.wf(),
            r@ == plane_of(self@, D1 * D2, ch as int),
    {
        let src = self.get_data_ref();
        let total: usize = src.len();
        proof {
            Self::lemma_volume();
            assert((ch + 1) * (D1 * D2) <= D1 * D2 * D3 && ch * (D1 * D2) + D1 * D2 == (ch + 1) * (D1
                * D2) && 0 <= ch * (D1 * D2)) by (nonlinear_arith)
                requires
                    0 <= ch < D3,
                    0 <= D1 * D2,
            ;
        }
        let size: usize = D1 * D2;
        let start: usize = ch * size;
        let mut data: Vec<T> = Vec::new();
        let mut i: usize = 0;
        while i < size
            invariant
                i <= size,
                size == D1 * D2,
                start == ch * size,
                start + size <= total,
                total == src@.len(),
                src@ == self@,
                data@.len() == i,
                forall|j: int| 0 <= j < i ==> data@[j] == self@[start + j],
            decreases size - i,
        {
            data.push(src[start + i]);
            i += 1;
        }
        assert(data@ =~= plane_of(self@, D1 * D2, ch as int));
        Tensor2::from_parts(data)
    }

    /// Output `i` of a convolution pass from `z`: at its position, the sum
    /// over the channels of the input's convolutions with its kernel, and
    /// then the bias.
    pub open spec fn pass_at<const K_D1: usize, const K_D2: usize>(
        &self,
        kernels: Seq<Tensor3<T, K_D1, K_D2, D3>>,
        biases: Seq<T>,
        z: T,
        i: int,
    ) -> T where T: Add<Output = T> + Mul<Output = T> {
        channels_prefix(
            self@,
            D1 as int,
            D2 as int,
            kernels[i / (D1 * D2)]@,
            K_D1 as int,
            K_D2 as int,
            z,
            i % (D1 * D2),
            D3 as nat,
        ).add_spec(biases[i])
    }

    /// Every product and sum of output `i` of a convolution pass from `z`
    /// is one that `T` allows.
    pub open spec fn pass_ok_at<const K_D1: usize, const K_D2: usize>(
        &self,
        kernels: Seq<Tensor3<T, K_D1, K_D2, D3>>,
        biases: Seq<T>,
        z: T,
        i: int,
    ) -> bool where T: Add<Output = T> + Mul<Output = T> {
        channels_prefix_ok(
            self@,
            D1 as int,
            D2 as int,
            kernels[i / (D1 * D2)]@,
            K_D1 as int,
            K_D2 as int,
            z,
            i % (D1 * D2),
            D3 as nat,
        ) && channels_prefix(
            self@,
            D1 as int,
            D2 as int,
            kernels[i / (D1 * D2)]@,
            K_D1 as int,
            K_D2 as int,
            z,
            i % (D1 * D2),
            D3 as nat,
        ).add_req(biases[i])
    }

    /// Every product and sum of a convolution pass from `z` is one that
    /// `T` allows.
    pub open spec fn pass_ok<const K_D1: usize, const K_D2: usize>(
        &self,
        kernels: Seq<Tensor3<T, K_D1, K_D2, D3>>,
        biases: Seq<T>,
        z: T,
    ) -> bool where T: Add<Output = T> + Mul<Output = T> {
        forall|i: int| 0 <= i < biases.len() ==> #[trigger] self.pass_ok_at(kernels, biases, z, i)
    }

    /// Where every operand is allowed, every convolution pass is.
    pub proof fn lemma_total_pass<const K_D1: usize, const K_D2: usize>(
        &self,
        kernels: Seq<Tensor3<T, K_D1, K_D2, D3>>,
        biases: Seq<T>,
        z: T,
    ) where T: Add<Output = T> + Sub<Output = T> + Mul<Output = T>
        requires
            total::<T>(),
        ensures
            self.pass_ok(kernels, biases, z),
    {
        assert forall|i: int| 0 <= i < biases.len() implies #[trigger] self.pass_ok_at(
            kernels,
            biases,
            z,
            i,
        ) by {
            lemma_total_channels(
                self@,
                D1 as int,
                D2 as int,
                kernels[i / (D1 * D2)]@,
                K_D1 as int,
                K_D2 as int,
                z,
                i % (D1 * D2),
                D3 as nat,
            );
        }
    }

    /// A convolution layer: for each kernel a plane, the sum over the
    /// channels of the input's centred convolutions with that kernel; and
    /// then the biases.
    pub fn convolution_pass<const N: usize, const K_D1: usize, const K_D2: usize>(
        &self,
        kernels: &Vec<Tensor3<T, K_D1, K_D2, D3>>,
        biases: &Tensor3<T, D1, D2, N>,
    ) -> (r: Tensor3<T, D1, D2, N>) where T: Add<Output = T> + Mul<Output = T> + Default
        requires
            self.wf(),
            biases.wf(),
            kernels@.len() == N,
            forall|n: int| 0 <= n < N ==> (#[trigger] kernels@[n]).wf(),
            T::obeys_add_spec(),
            T::obeys_mul_spec(),
            forall|z: T| is_default(z) ==> self.pass_ok(kernels@, biases@, z),
        ensures
            r.wf(),
            exists|z: T|
                is_default(z) && forall|i: int|
                    0 <= i < D1 * D2 * N ==> r@[i] == self.pass_at(kernels@, biases@, z, i),
    {
        let zero = T::default();
        assert(is_default(zero));
        let bias = biases.get_data_ref();
        let total: usize = bias.len();
        let whole: usize = self.get_data_ref().len();
        proof {
            Tensor3::<T, D1, D2, N>::lemma_volume();
            Self::lemma_volume();
        }
        if total == 0 {
            return Tensor3::from_parts(Vec::new());
        }
        proof {
            assert(0 < D1 * D2 && D1 * D2 <= total) by (nonlinear_arith)
                requires
                    total == D1 * D2 * N,
                    0 < total,
                    0 <= D1 * D2,
                    0 <= N,
            ;
        }
        let size: usize = D1 * D2;
        let mut data: Vec<T> = Vec::new();
        let mut n: usize = 0;
        while n < N
            invariant
                n <= N,
                self.wf(),
                size == D1 * D2,
                0 < size,
                total == size * N,
                bias@ == biases@,
                biases@.len() == total,
                kernels@.len() == N,
                forall|n: int| 0 <= n < N ==> (#[trigger] kernels@[n]).wf(),
                T::obeys_add_spec(),
                T::obeys_mul_spec(),
                self.pass_ok(kernels@, biases@, zero),
                data@.len() == n * size,
                forall|i: int|
                    0 <= i < data@.len() ==> data@[i] == channels_prefix(
                        self@,
                        D1 as int,
                        D2 as int,
                        kernels@[i / (size as int)]@,
                        K_D1 as int,
                        K_D2 as int,
                        zero,
                        i % (size as int),
                        D3 as nat,
                    ),
            decreases N - n,
        {
            let kernel = &kernels[n];
            assert(kernels@[n as int].wf());
            let ghost kern = kernels@[n as int]@;
            let klen: usize = kernel.get_data_ref().len();
            proof {
                Tensor3::<T, K_D1, K_D2, D3>::lemma_volume();
                assert forall|o: int| 0 <= o < size implies (n * size + o) / (size as int) == n
                    && (n * size + o) % (size as int) == o && 0 <= #[trigger] (n * size + o)
                    < total by {
                    lemma_index2(o, n as int, size as int, N as int);
                }
            }
            let mut plane: Vec<T> = repeat(zero, size);
            let mut ch: usize = 0;
            while ch < D3
                invariant
                    ch <= D3,
                    n < N,
                    self.wf(),
                    kernel.wf(),
                    kern == kernel@,
                    kern == kernels@[n as int]@,
                    size == D1 * D2,
                    0 < size,
                    total == size * N,
                    biases@.len() == total,
                    T::obeys_add_spec(),
                    T::obeys_mul_spec(),
                    self.pass_ok(kernels@, biases@, zero),
                    forall|o: int|
                        0 <= o < size ==> (n * size + o) / (size as int) == n && (n * size + o) % (
                        size as int) == o && 0 <= #[trigger] (n * size + o) < total,
                    plane@.len() == size,
                    forall|o: int|
                        0 <= o < size ==> plane@[o] == channels_prefix(
                            self@,
                            D1 as int,
                            D2 as int,
                            kern,
                            K_D1 as int,
                            K_D2 as int,
                            zero,
                            o,
                            ch as nat,
                        ),
                decreases D3 - ch,
            {
                let input_plane = self.channel(ch);
                let kernel_plane = kernel.channel(ch);
                proof {
                    assert forall|o: int| 0 <= o < size implies dot_prefix_ok(
                        zero,
                        #[trigger] input_plane.taps(
                            o,
                            D1 as int,
                            K_D1 as int,
                            kernel_plane@.len(),
                            -(K_D1 / 2),
                            -(K_D2 / 2),
                            zero,
                        ),
                        kernel_plane@,
                        kernel_plane@.len(),
                    ) by {
                        let i = n * size + o;
                        assert(0 <= i < total);
                        assert(self.pass_ok_at(kernels@, biases@, zero, i));
                        lemma_channel_step(
                            self@,
                            D1 as int,
                            D2 as int,
                            kern,
                            K_D1 as int,
                            K_D2 as int,
                            zero,
                            o,
                            D3 as nat,
                            ch as nat,
                        );
                    }
                }
                let conv = input_plane.convolve_from::<K_D1, K_D2, D1, D2>(
                    &kernel_plane,
                    K_D1 / 2,
                    K_D2 / 2,
                    zero,
                );
                let ghost before = plane@;
                proof {
                    assert forall|o: int| 0 <= o < size implies #[trigger] before[o].add_req(
                        conv@[o],
                    ) && before[o].add_spec(conv@[o]) == channels_prefix(
                        self@,
                        D1 as int,
                        D2 as int,
                        kern,
                        K_D1 as int,
                        K_D2 as int,
                        zero,
                        o,
                        (ch + 1) as nat,
                    ) by {
                        let i = n * size + o;
                        assert(0 <= i < total);
                        assert(self.pass_ok_at(kernels@, biases@, zero, i));
                        lemma_channel_step(
                            self@,
                            D1 as int,
                            D2 as int,
                            kern,
                            K_D1 as int,
                            K_D2 as int,
                            zero,
                            o,
                            D3 as nat,
                            ch as nat,
                        );
                    }
                }
                plane = add_each(&plane, conv.get_data_ref());
                ch += 1;
            }
            let ghost before = data@;
            data.append(&mut plane);
            proof {
                assert((n + 1) * size == n * size + size) by (nonlinear_arith);
                assert forall|i: int| 0 <= i < data@.len() implies data@[i] == channels_prefix(
                    self@,
                    D1 as int,
                    D2 as int,
                    kernels@[i / (size as int)]@,
                    K_D1 as int,
                    K_D2 as int,
                    zero,
                    i % (size as int),
                    D3 as nat,
                ) by {
                    if i >= before.len() {
                        let o = i - n * size;
                        assert(i == n * size + o);
                    }
                }
            }
            n += 1;
        }
        proof {
            assert(N * size == size * N) by (nonlinear_arith);
            assert forall|i: int| 0 <= i < total implies #[trigger] data@[i].add_req(biases@[i])
                by {
                assert(self.pass_ok_at(kernels@, biases@, zero, i));
            }
        }
        let out = add_each(&data, bias);
        proof {
            assert forall|i: int| 0 <= i < D1 * D2 * N implies out@[i] == self.pass_at(
                kernels@,
                biases@,
                zero,
                i,
            ) by {
                assert(out@[i] == data@[i].add_spec(biases@[i]));
            }
        }
        Tensor3::from_parts(out)
    }
}

/// `out` is a result of `convolve` on planes that hold `x` and `k`.
pub open spec fn plane_made<
    T: Copy,
    const D1: usize,
    const D2: usize,
    const K_D1: usize,
    const K_D2: usize,
    F: Fn(Tensor2<T, D1, D2>, Tensor2<T, K_D1, K_D2>) -> Tensor2<T, D1, D2>,
>(convolve: F, x: Seq<T>, k: Seq<T>, out: Seq<T>) -> bool {
    exists|tx: Tensor2<T, D1, D2>, tk: Tensor2<T, K_D1, K_D2>, tout: Tensor2<T, D1, D2>|
        tx@ == x && tk@ == k && tout@ == out && #[trigger] call_ensures(convolve, (tx, tk), tout)
}

/// What a convolution pass asks of the function that convolves a plane
/// with a kernel's plane: it accepts all planes, and gives planes.
pub open spec fn convolves<
    T: Copy,
    const D1: usize,
    const D2: usize,
    const K_D1: usize,
    const K_D2: usize,
    F: Fn(Tensor2<T, D1, D2>, Tensor2<T, K_D1, K_D2>) -> Tensor2<T, D1, D2>,
>(convolve: F) -> bool {
    &&& forall|tx: Tensor2<T, D1, D2>, tk: Tensor2<T, K_D1, K_D2>|
        tx.wf() && tk.wf() ==> #[trigger] call_requires(convolve, (tx, tk))
    &&& forall|tx: Tensor2<T, D1, D2>, tk: Tensor2<T, K_D1, K_D2>, tout: Tensor2<T, D1, D2>| #[trigger]
        call_ensures(convolve, (tx, tk), tout) ==> tout.wf()
}

/// What the channels' planes for one output give at position `o`, in the
/// order of the channels.
pub open spec fn across<T>(planes: Seq<Seq<T>>, o: int) -> Seq<T> {
    Seq::new(planes.len(), |ch: int| planes[ch][o])
}

impl<T: Copy, const D1: usize, const D2: usize, const D3: usize> Tensor3<T, D1, D2, D3> {
    /// `out` is what a convolution pass makes of this tensor where
    /// `convolve` convolves the planes: for each kernel a plane, the sum
    /// from a default value over the channels of results of `convolve` on
    /// the channel's plane and the kernel's; and then the biases.
    pub open spec fn passed_by<
        const K_D1: usize,
        const K_D2: usize,
        F: Fn(Tensor2<T, D1, D2>, Tensor2<T, K_D1, K_D2>) -> Tensor2<T, D1, D2>,
    >(
        &self,
        convolve: F,
        kernels: Seq<Tensor3<T, K_D1, K_D2, D3>>,
        biases: Seq<T>,
        out: Seq<T>,
    ) -> bool where T: Add<Output = T> + Default {
        exists|z: T, planes: Seq<Seq<Seq<T>>>|
            {
                &&& is_default(z)
                &&& planes.len() == kernels.len()
                &&& forall|n: int| 0 <= n < kernels.len() ==> (#[trigger] planes[n]).len() == D3
                &&& forall|n: int, ch: int|
                    0 <= n < kernels.len() && 0 <= ch < D3 ==> plane_made(
                        convolve,
                        plane_of(self@, D1 * D2, ch),
                        plane_of(kernels[n]@, K_D1 * K_D2, ch),
                        #[trigger] planes[n][ch],
                    )
                &&& out.len() == biases.len()
                &&& forall|i: int|
                    0 <= i < out.len() ==> #[trigger] out[i] == sum_prefix(
                        z,
                        across(planes[i / (D1 * D2)], i % (D1 * D2)),
                        D3 as nat,
                    ).add_spec(biases[i])
            }
    }

    /// A convolution layer whose planes `convolve` convolves: see
    /// `passed_by`.
    pub fn convolution_pass_by<
        const N: usize,
        const K_D1: usize,
        const K_D2: usize,
        F: Fn(Tensor2<T, D1, D2>, Tensor2<T, K_D1, K_D2>) -> Tensor2<T, D1, D2>,
    >(
        &self,
        kernels: &Vec<Tensor3<T, K_D1, K_D2, D3>>,
        biases: &Tensor3<T, D1, D2, N>,
        convolve: &F,
    ) -> (r: Tensor3<T, D1, D2, N>) where T: Add<Output = T> + Default
        requires
            self.wf(),
            biases.wf(),
            kernels@.len() == N,
            forall|n: int| 0 <= n < N ==> (#[trigger] kernels@[n]).wf(),
            T::obeys_add_spec(),
            forall|a: T, b: T| #[trigger] a.add_req(b),
            convolves(*convolve),
        ensures
            r.wf(),
            self.passed_by(*convolve, kernels@, biases@, r@),
    {
        let zero = T::default();
        assert(is_default(zero));
        let bias = biases.get_data_ref();
        let total: usize = bias.len();
        let whole: usize = self.get_data_ref().len();
        let ghost mut planes: Seq<Seq<Seq<T>>> = Seq::empty();
        proof {
            Tensor3::<T, D1, D2, N>::lemma_volume();
            Self::lemma_volume();
            Tensor2::<T, D1, D2>::lemma_volume();
        }
        if N == 0 {
            assert(D1 * D2 * 0 == 0) by (nonlinear_arith);
            let none: Tensor3<T, D1, D2, N> = Tensor3::from_parts(Vec::new());
            proof {
                let planes: Seq<Seq<Seq<T>>> = Seq::empty();
                assert(is_default(zero) && planes.len() == kernels@.len() && none@.len()
                    == biases@.len());
            }
            return none;
        }
        proof {
            assert(0 <= D1 * D2 <= total) by (nonlinear_arith)
                requires
                    total == D1 * D2 * N,
                    1 <= N,
                    0 <= D1 * D2,
            ;
        }
        let size: usize = D1 * D2;
        let mut data: Vec<T> = Vec::new();
        let mut n: usize = 0;
        while n < N
            invariant
                n <= N,
                self.wf(),
                size == D1 * D2,
                total == size * N,
                bias@ == biases@,
                biases@.len() == total,
                kernels@.len() == N,
                forall|n: int| 0 <= n < N ==> (#[trigger] kernels@[n]).wf(),
                T::obeys_add_spec(),
                forall|a: T, b: T| #[trigger] a.add_req(b),
                convolves(*convolve),
                planes.len() == n,
                forall|m: int| 0 <= m < n ==> (#[trigger] planes[m]).len() == D3,
                forall|m: int, ch: int|
                    0 <= m < n && 0 <= ch < D3 ==> plane_made(
                        *convolve,
                        plane_of(self@, D1 * D2, ch),
                        plane_of(kernels@[m]@, K_D1 * K_D2, ch),
                        #[trigger] planes[m][ch],
                    ) && planes[m][ch].len() == size,
                data@.len() == n * size,
                forall|i: int|
                    0 <= i < data@.len() ==> #[trigger] data@[i] == sum_prefix(
                        zero,
                        across(planes[i / (size as int)], i % (size as int)),
                        D3 as nat,
                    ),
            decreases N - n,
        {
            let kernel = &kernels[n];
            assert(kernels@[n as int].wf());
            let ghost mut row: Seq<Seq<T>> = Seq::empty();
            let mut plane: Vec<T> = repeat(zero, size);
            let mut ch: usize = 0;
            while ch < D3
                invariant
                    ch <= D3,
                    n < N,
                    self.wf(),
                    kernel.wf(),
                    *kernel == kernels@[n as int],
                    size == D1 * D2,
                    T::obeys_add_spec(),
                    forall|a: T, b: T| #[trigger] a.add_req(b),
                    convolves(*convolve),
                    row.len() == ch,
                    forall|c: int|
                        0 <= c < ch ==> plane_made(
                            *convolve,
                            plane_of(self@, D1 * D2, c),
                            plane_of(kernel@, K_D1 * K_D2, c),
                            #[trigger] row[c],
                        ) && row[c].len() == size,
                    plane@.len() == size,
                    forall|o: int|
                        0 <= o < size ==> #[trigger] plane@[o] == sum_prefix(
                            zero,
                            across(row, o),
                            ch as nat,
                        ),
                decreases D3 - ch,
            {
                let input_plane = self.channel(ch);
                let kernel_plane = kernel.channel(ch);
                let made = convolve(input_plane, kernel_plane);
                let ghost before = plane@;
                let ghost shorter = row;
                proof {
                    assert(call_ensures(*convolve, (input_plane, kernel_plane), made));
                    row = row.push(made@);
                    assert forall|o: int| 0 <= o < size implies #[trigger] before[o].add_spec(
                        made@[o],
                    ) == sum_prefix(zero, across(row, o), (ch + 1) as nat) by {
                        lemma_sum_prefix_same(zero, across(shorter, o), across(row, o), ch as nat);
                        assert(across(row, o)[ch as int] == made@[o]);
                    }
                }
                plane = add_each(&plane, made.get_data_ref());
                ch += 1;
            }
            let ghost before = data@;
            let ghost earlier = planes;
            data.append(&mut plane);
            proof {
                planes = planes.push(row);
                assert((n + 1) * size == n * size + size) by (nonlinear_arith);
                assert forall|i: int| 0 <= i < data@.len() implies #[trigger] data@[i]
                    == sum_prefix(
                    zero,
                    across(planes[i / (size as int)], i % (size as int)),
                    D3 as nat,
                ) by {
                    if size > 0 {
                        lemma_split2(i, size as int, (n + 1) as int);
                        assert(size * (n + 1) == (n + 1) * size) by (nonlinear_arith);
                        if i >= before.len() {
                            let o = i - n * size;
                            lemma_index2(o, n as int, size as int, (n + 1) as int);
                        } else {
                            assert(n * size == size * n) by (nonlinear_arith);
                            lemma_split2(i, size as int, n as int);
                            assert(planes[i / (size as int)] == earlier[i / (size as int)]);
                        }
                    }
                }
            }
            n += 1;
        }
        proof {
            assert(N * size == size * N) by (nonlinear_arith);
        }
        let out = add_each(&data, bias);
        proof {
            assert forall|i: int| 0 <= i < out@.len() implies #[trigger] out@[i] == sum_prefix(
                zero,
                across(planes[i / (D1 * D2)], i % (D1 * D2)),
                D3 as nat,
            ).add_spec(biases@[i]) by {
                assert(out@[i] == data@[i].add_spec(biases@[i]));
            }
        }
        Tensor3::from_parts(out)
    }
}

} // verus!
