//! Convolution by shifted windows: each kernel element scales the window
//! of the input that it meets, and the scaled windows are summed.

use core::ops::Add;
use core::ops::Mul;
use vstd::prelude::*;
use vstd::std_specs::ops::AddSpec;
use vstd::std_specs::ops::MulSpec;
use crate::elementwise::add_all_ok;
use crate::elementwise::add_each;
use crate::elementwise::added;
use crate::elementwise::scale_each;
use crate::elementwise::scale_ok;
use crate::elementwise::scaled;
use crate::numeric::dot;
use crate::numeric::dot_prefix;
use crate::numeric::dot_prefix_ok;
use crate::numeric::is_default;
use crate::numeric::lemma_dot_step;
use crate::tensor::repeat;
use crate::tensor::Tensor;
use crate::tensor::Tensor1;
use crate::tensor::Tensor2;
use crate::tensor::Tensor3;
use crate::tensor::TensorError;

verus! {

/// Adds to each element of `acc` the element of `window` at its position,
/// scaled by `k`.
pub fn accumulate<T: Copy + Add<Output = T> + Mul<Output = T>>(
    acc: &Vec<T>,
    window: &Vec<T>,
    k: T,
) -> (r: Vec<T>)
    requires
        T::obeys_add_spec(),
        T::obeys_mul_spec(),
        scale_ok(window@, k),
        add_all_ok(acc@, scaled(window@, k)),
    ensures
        r@ == added(acc@, scaled(window@, k)),
{
    let scaled_window = scale_each(window, k);
    add_each(acc, &scaled_window)
}

/// Whether `out` outputs are all the positions at which a kernel of extent
/// `kern` lies inside an input of extent `len`.
pub fn spans_exactly(out: usize, kern: usize, len: usize) -> (r: bool)
    ensures
        r <==> out + kern == len + 1,
{
    if out == 0 {
        kern >= 1 && kern - 1 == len
    } else {
        match (out - 1).checked_add(kern) {
            Some(span) => span == len,
            None => false,
        }
    }
}

/// The padding that `out` outputs need along an axis: `out + kern - len - 1`.
pub fn padding(out: usize, kern: usize, len: usize) -> (r: Option<usize>)
    ensures
        r is Some <==> len + 1 <= out + kern <= usize::MAX,
        r is Some ==> r->Some_0 == out + kern - len - 1,
{
    match out.checked_add(kern) {
        Some(span) => {
            if span <= len {
                None
            } else {
                Some(span - len - 1)
            }
        },
        None => None,
    }
}

impl<T: Copy + Add<Output = T> + Mul<Output = T>, const L: usize> Tensor1<T, L> {
    /// The input values that the kernel's elements meet for output `o`,
    /// where the kernel's first element lies `base` from that output.
    pub open spec fn taps(&self, o: int, base: int, klen: nat, z: T) -> Seq<T> {
        Seq::new(klen, |k: int| self.padded(o + k + base, z))
    }

    /// Output `o` of a convolution: from `z`, the products of the kernel's
    /// elements with the input values they meet.
    pub open spec fn conv_at(&self, kernel: Seq<T>, base: int, z: T, o: int) -> T {
        dot(z, self.taps(o, base, kernel.len(), z), kernel)
    }

    /// Every product and sum of each of the first `outputs` outputs is one
    /// that `T` allows.
    pub open spec fn conv_ok(&self, kernel: Seq<T>, base: int, z: T, outputs: nat) -> bool {
        forall|o: int|
            0 <= o < outputs ==> dot_prefix_ok(
                z,
                #[trigger] self.taps(o, base, kernel.len(), z),
                kernel,
                kernel.len(),
            )
    }

    /// `OUT_L` outputs of the convolution whose kernel starts `minus` before
    /// each output, from `zero` and with `zero` outside the input.
    pub fn convolve_from<const KERN_L: usize, const OUT_L: usize>(
        &self,
        kernel: &Tensor1<T, KERN_L>,
        minus: usize,
        zero: T,
    ) -> (r: Tensor1<T, OUT_L>)
        requires
            self.wf(),
            kernel.wf(),
            T::obeys_add_spec(),
            T::obeys_mul_spec(),
            self.conv_ok(kernel@, -minus, zero, OUT_L as nat),
        ensures
            r.wf(),
            forall|o: int| 0 <= o < OUT_L ==> r@[o] == self.conv_at(kernel@, -minus, zero, o),
    {
        let weights = kernel.get_data_ref();
        let mut acc: Vec<T> = repeat(zero, OUT_L);
        let mut k: usize = 0;
        while k < KERN_L
            invariant
                k <= KERN_L,
                self.wf(),
                weights@ == kernel@,
                kernel@.len() == KERN_L,
                T::obeys_add_spec(),
                T::obeys_mul_spec(),
                self.conv_ok(kernel@, -minus, zero, OUT_L as nat),
                acc@.len() == OUT_L,
                forall|o: int|
                    0 <= o < OUT_L ==> acc@[o] == dot_prefix(
                        zero,
                        self.taps(o, -minus, KERN_L as nat, zero),
                        kernel@,
                        k as nat,
                    ),
            decreases KERN_L - k,
        {
            let window = self.window_from::<OUT_L>(k, minus, zero);
            let w = weights[k];
            let ghost before = acc@;
            proof {
                let products = scaled(window@, w);
                assert forall|o: int| 0 <= o < OUT_L implies #[trigger] window@[o].mul_req(w) by {
                    let taps = self.taps(o, -minus, KERN_L as nat, zero);
                    lemma_dot_step(zero, taps, kernel@, KERN_L as nat, k as nat);
                    assert(taps[k as int] == window@[o]);
                }
                assert forall|o: int| 0 <= o < OUT_L implies #[trigger] before[o].add_req(
                    products[o],
                ) && before[o].add_spec(products[o]) == dot_prefix(
                    zero,
                    self.taps(o, -minus, KERN_L as nat, zero),
                    kernel@,
                    (k + 1) as nat,
                ) by {
                    let taps = self.taps(o, -minus, KERN_L as nat, zero);
                    lemma_dot_step(zero, taps, kernel@, KERN_L as nat, k as nat);
                    assert(taps[k as int] == window@[o]);
                }
            }
            acc = accumulate(&acc, window.get_data_ref(), w);
            k += 1;
        }
        Tensor1::from_parts(acc)
    }

    /// The convolution over every position where the kernel lies inside
    /// the input: `L + 1 - KERN_L` outputs.
    pub fn convolve<const KERN_L: usize, const OUT_L: usize>(
        &self,
        kernel: &Tensor1<T, KERN_L>,
    ) -> (r: Result<Tensor1<T, OUT_L>, TensorError>) where T: Default
        requires
            self.wf(),
            kernel.wf(),
            T::obeys_add_spec(),
            T::obeys_mul_spec(),
            OUT_L + KERN_L == L + 1 ==> forall|z: T|
                is_default(z) ==> self.conv_ok(kernel@, 0, z, OUT_L as nat),
        ensures
            r is Ok <==> OUT_L + KERN_L == L + 1,
            r is Ok ==> r->Ok_0.wf() && exists|z: T|
                is_default(z) && forall|o: int|
                    0 <= o < OUT_L ==> r->Ok_0@[o] == self.conv_at(kernel@, 0, z, o),
            r is Err ==> r->Err_0 == TensorError::ShapeMismatch,
    {
        if !spans_exactly(OUT_L, KERN_L, L) {
            return Err(TensorError::ShapeMismatch);
        }
        let zero = T::default();
        assert(is_default(zero));
        Ok(self.convolve_from::<KERN_L, OUT_L>(kernel, 0, zero))
    }

    /// The convolution with the kernel centred on each input position:
    /// as many outputs as inputs.
    pub fn convolve_with_pad<const KERN_L: usize>(&self, kernel: &Tensor1<T, KERN_L>) -> (r:
        Tensor1<T, L>) where T: Default
        requires
            self.wf(),
            kernel.wf(),
            T::obeys_add_spec(),
            T::obeys_mul_spec(),
            forall|z: T| is_default(z) ==> self.conv_ok(kernel@, -(KERN_L / 2), z, L as nat),
        ensures
            r.wf(),
            exists|z: T|
                is_default(z) && forall|o: int|
                    0 <= o < L ==> r@[o] == self.conv_at(kernel@, -(KERN_L / 2), z, o),
    {
        let zero = T::default();
        assert(is_default(zero));
        self.convolve_from::<KERN_L, L>(kernel, KERN_L / 2, zero)
    }

    /// The convolution with as much padding as `OUT_L` outputs need, half
    /// of it before the input.
    pub fn convolve_with_pad_to<const KERN_L: usize, const OUT_L: usize>(
        &self,
        kernel: &Tensor1<T, KERN_L>,
    ) -> (r: Result<Tensor1<T, OUT_L>, TensorError>) where T: Default
        requires
            self.wf(),
            kernel.wf(),
            T::obeys_add_spec(),
            T::obeys_mul_spec(),
            L + 1 <= OUT_L + KERN_L <= usize::MAX ==> forall|z: T|
                is_default(z) ==> self.conv_ok(
                    kernel@,
                    -((OUT_L + KERN_L - L - 1) / 2),
                    z,
                    OUT_L as nat,
                ),
        ensures
            r is Ok <==> L + 1 <= OUT_L + KERN_L <= usize::MAX,
            r is Ok ==> r->Ok_0.wf() && exists|z: T|
                is_default(z) && forall|o: int|
                    0 <= o < OUT_L ==> r->Ok_0@[o] == self.conv_at(
                        kernel@,
                        -((OUT_L + KERN_L - L - 1) / 2),
                        z,
                        o,
                    ),
            r is Err ==> r->Err_0 == TensorError::ShapeMismatch,
    {
        let pad: usize = match padding(OUT_L, KERN_L, L) {
            Some(pad) => pad,
            None => {
                return Err(TensorError::ShapeMismatch);
            },
        };
        let zero = T::default();
        assert(is_default(zero));
        Ok(self.convolve_from::<KERN_L, OUT_L>(kernel, pad / 2, zero))
    }
}

/// The element in column `c` of row `r` of a plane of `cols` columns and
/// `rows` rows, stored row after row; `z` where that lies outside.
pub open spec fn plane_padded<T>(plane: Seq<T>, cols: int, rows: int, c: int, r: int, z: T) -> T {
    if 0 <= c < cols && 0 <= r < rows {
        plane[r * cols + c]
    } else {
        z
    }
}

/// The values of a plane that the kernel's elements meet for output `o` of
/// `out_c` columns, where the first element of a kernel of `kern_c` columns
/// lies `(base_c, base_r)` from that output.
pub open spec fn plane_taps<T>(
    plane: Seq<T>,
    cols: int,
    rows: int,
    o: int,
    out_c: int,
    kern_c: int,
    klen: nat,
    base_c: int,
    base_r: int,
    z: T,
) -> Seq<T> {
    Seq::new(
        klen,
        |k: int|
            plane_padded(
                plane,
                cols,
                rows,
                o % out_c + k % kern_c + base_c,
                o / out_c + k / kern_c + base_r,
                z,
            ),
    )
}

impl<T: Copy + Add<Output = T> + Mul<Output = T>, const C: usize, const R: usize> Tensor2<
    T,
    C,
    R,
> {
    /// The input values that the kernel's elements meet for output `o` of
    /// `out_c` columns, where the first element of a kernel of `kern_c`
    /// columns lies `(base_c, base_r)` from that output.
    pub open spec fn taps(
        &self,
        o: int,
        out_c: int,
        kern_c: int,
        klen: nat,
        base_c: int,
        base_r: int,
        z: T,
    ) -> Seq<T> {
        plane_taps(self@, C as int, R as int, o, out_c, kern_c, klen, base_c, base_r, z)
    }

    /// Output `o` of a convolution: from `z`, the products of the kernel's
    /// elements with the input values they meet.
    pub open spec fn conv_at(
        &self,
        kernel: Seq<T>,
        out_c: int,
        kern_c: int,
        base_c: int,
        base_r: int,
        z: T,
        o: int,
    ) -> T {
        dot(z, self.taps(o, out_c, kern_c, kernel.len(), base_c, base_r, z), kernel)
    }

    /// Every product and sum of each of the first `outputs` outputs is one
    /// that `T` allows.
    pub open spec fn conv_ok(
        &self,
        kernel: Seq<T>,
        out_c: int,
        kern_c: int,
        base_c: int,
        base_r: int,
        z: T,
        outputs: nat,
    ) -> bool {
        forall|o: int|
            0 <= o < outputs ==> dot_prefix_ok(
                z,
                #[trigger] self.taps(o, out_c, kern_c, kernel.len(), base_c, base_r, z),
                kernel,
                kernel.len(),
            )
    }

    /// `OUT_C` by `OUT_R` outputs of the convolution whose kernel starts
    /// `minus_c` columns and `minus_r` rows before each output, from `zero`
    /// and with `zero` outside the input.
    pub fn convolve_from<
        const KERN_C: usize,
        const KERN_R: usize,
        const OUT_C: usize,
        const OUT_R: usize,
    >(&self, kernel: &Tensor2<T, KERN_C, KERN_R>, minus_c: usize, minus_r: usize, zero: T) -> (r:
        Tensor2<T, OUT_C, OUT_R>)
        requires
            self.wf(),
            kernel.wf(),
            T::obeys_add_spec(),
            T::obeys_mul_spec(),
            OUT_C * OUT_R <= usize::MAX,
            self.conv_ok(
                kernel@,
                OUT_C as int,
                KERN_C as int,
                -minus_c,
                -minus_r,
                zero,
                (OUT_C * OUT_R) as nat,
            ),
        ensures
            r.wf(),
            forall|o: int|
                0 <= o < OUT_C * OUT_R ==> r@[o] == self.conv_at(
                    kernel@,
                    OUT_C as int,
                    KERN_C as int,
                    -minus_c,
                    -minus_r,
                    zero,
                    o,
                ),
    {
        let weights = kernel.get_data_ref();
        let klen: usize = weights.len();
        let outputs: usize = match crate::tensor::volume2(OUT_C, OUT_R) {
            Some(n) => n,
            None => vstd::pervasive::unreached(),
        };
        let mut acc: Vec<T> = repeat(zero, outputs);
        let mut k: usize = 0;
        while k < klen
            invariant
                k <= klen,
                self.wf(),
                weights@ == kernel@,
                klen == KERN_C * KERN_R,
                kernel@.len() == klen,
                outputs == OUT_C * OUT_R,
                T::obeys_add_spec(),
                T::obeys_mul_spec(),
                self.conv_ok(
                    kernel@,
                    OUT_C as int,
                    KERN_C as int,
                    -minus_c,
                    -minus_r,
                    zero,
                    outputs as nat,
                ),
                acc@.len() == outputs,
                forall|o: int|
                    0 <= o < outputs ==> acc@[o] == dot_prefix(
                        zero,
                        self.taps(o, OUT_C as int, KERN_C as int, klen as nat, -minus_c, -minus_r, zero),
                        kernel@,
                        k as nat,
                    ),
            decreases klen - k,
        {
            proof {
                crate::index::lemma_split2(k as int, KERN_C as int, KERN_R as int);
            }
            let window = self.window_from::<OUT_C, OUT_R>(
                (k % KERN_C, minus_c),
                (k / KERN_C, minus_r),
                zero,
            );
            let w = weights[k];
            let ghost before = acc@;
            proof {
                let products = scaled(window@, w);
                assert forall|o: int| 0 <= o < outputs implies #[trigger] window@[o].mul_req(w) by {
                    let taps = self.taps(
                        o,
                        OUT_C as int,
                        KERN_C as int,
                        klen as nat,
                        -minus_c,
                        -minus_r,
                        zero,
                    );
                    lemma_dot_step(zero, taps, kernel@, klen as nat, k as nat);
                    assert(taps[k as int] == window@[o]);
                }
                assert forall|o: int| 0 <= o < outputs implies #[trigger] before[o].add_req(
                    products[o],
                ) && before[o].add_spec(products[o]) == dot_prefix(
                    zero,
                    self.taps(o, OUT_C as int, KERN_C as int, klen as nat, -minus_c, -minus_r, zero),
                    kernel@,
                    (k + 1) as nat,
                ) by {
                    let taps = self.taps(
                        o,
                        OUT_C as int,
                        KERN_C as int,
                        klen as nat,
                        -minus_c,
                        -minus_r,
                        zero,
                    );
                    lemma_dot_step(zero, taps, kernel@, klen as nat, k as nat);
                    assert(taps[k as int] == window@[o]);
                }
            }
            acc = accumulate(&acc, window.get_data_ref(), w);
            k += 1;
        }
        Tensor2::from_parts(acc)
    }

    /// The convolution over every position where the kernel lies inside
    /// the input: `C + 1 - KERN_C` columns of `R + 1 - KERN_R` rows.
    pub fn convolve<
        const KERN_C: usize,
        const KERN_R: usize,
        const OUT_C: usize,
        const OUT_R: usize,
    >(&self, kernel: &Tensor2<T, KERN_C, KERN_R>) -> (r: Result<
        Tensor2<T, OUT_C, OUT_R>,
        TensorError,
    >) where T: Default
        requires
            self.wf(),
            kernel.wf(),
            T::obeys_add_spec(),
            T::obeys_mul_spec(),
            OUT_C + KERN_C == C + 1 && OUT_R + KERN_R == R + 1 && OUT_C * OUT_R <= usize::MAX
                ==> forall|z: T|
                is_default(z) ==> self.conv_ok(
                    kernel@,
                    OUT_C as int,
                    KERN_C as int,
                    0,
                    0,
                    z,
                    (OUT_C * OUT_R) as nat,
                ),
        ensures
            r is Ok <==> OUT_C + KERN_C == C + 1 && OUT_R + KERN_R == R + 1 && OUT_C * OUT_R
                <= usize::MAX,
            r is Ok ==> r->Ok_0.wf() && exists|z: T|
                is_default(z) && forall|o: int|
                    0 <= o < OUT_C * OUT_R ==> r->Ok_0@[o] == self.conv_at(
                        kernel@,
                        OUT_C as int,
                        KERN_C as int,
                        0,
                        0,
                        z,
                        o,
                    ),
            r is Err ==> r->Err_0 == TensorError::ShapeMismatch,
    {
        if !spans_exactly(OUT_C, KERN_C, C) || !spans_exactly(OUT_R, KERN_R, R)
            || crate::tensor::volume2(OUT_C, OUT_R).is_none() {
            return Err(TensorError::ShapeMismatch);
        }
        let zero = T::default();
        assert(is_default(zero));
        Ok(self.convolve_from::<KERN_C, KERN_R, OUT_C, OUT_R>(kernel, 0, 0, zero))
    }

    /// The convolution with the kernel centred on each input position:
    /// the input's own shape.
    pub fn convolve_with_pad<const KERN_C: usize, const KERN_R: usize>(
        &self,
        kernel: &Tensor2<T, KERN_C, KERN_R>,
    ) -> (r: Tensor2<T, C, R>) where T: Default
        requires
            self.wf(),
            kernel.wf(),
            T::obeys_add_spec(),
            T::obeys_mul_spec(),
            forall|z: T|
                is_default(z) ==> self.conv_ok(
                    kernel@,
                    C as int,
                    KERN_C as int,
                    -(KERN_C / 2),
                    -(KERN_R / 2),
                    z,
                    (C * R) as nat,
                ),
        ensures
            r.wf(),
            exists|z: T|
                is_default(z) && forall|o: int|
                    0 <= o < C * R ==> r@[o] == self.conv_at(
                        kernel@,
                        C as int,
                        KERN_C as int,
                        -(KERN_C / 2),
                        -(KERN_R / 2),
                        z,
                        o,
                    ),
    {
        let whole: usize = self.get_data_ref().len();
        let zero = T::default();
        assert(is_default(zero));
        self.convolve_from::<KERN_C, KERN_R, C, R>(kernel, KERN_C / 2, KERN_R / 2, zero)
    }

    /// The convolution with as much padding as `OUT_C` by `OUT_R` outputs
    /// need, half of it before the input along each axis.
    pub fn convolve_with_pad_to<
        const KERN_C: usize,
        const KERN_R: usize,
        const OUT_C: usize,
        const OUT_R: usize,
    >(&self, kernel: &Tensor2<T, KERN_C, KERN_R>) -> (r: Result<
        Tensor2<T, OUT_C, OUT_R>,
        TensorError,
    >) where T: Default
        requires
            self.wf(),
            kernel.wf(),
            T::obeys_add_spec(),
            T::obeys_mul_spec(),
            C + 1 <= OUT_C + KERN_C <= usize::MAX && R + 1 <= OUT_R + KERN_R <= usize::MAX && OUT_C
                * OUT_R <= usize::MAX ==> forall|z: T|
                is_default(z) ==> self.conv_ok(
                    kernel@,
                    OUT_C as int,
                    KERN_C as int,
                    -((OUT_C + KERN_C - C - 1) / 2),
                    -((OUT_R + KERN_R - R - 1) / 2),
                    z,
                    (OUT_C * OUT_R) as nat,
                ),
        ensures
            r is Ok <==> C + 1 <= OUT_C + KERN_C <= usize::MAX && R + 1 <= OUT_R + KERN_R
                <= usize::MAX && OUT_C * OUT_R <= usize::MAX,
            r is Ok ==> r->Ok_0.wf() && exists|z: T|
                is_default(z) && forall|o: int|
                    0 <= o < OUT_C * OUT_R ==> r->Ok_0@[o] == self.conv_at(
                        kernel@,
                        OUT_C as int,
                        KERN_C as int,
                        -((OUT_C + KERN_C - C - 1) / 2),
                        -((OUT_R + KERN_R - R - 1) / 2),
                        z,
                        o,
                    ),
            r is Err ==> r->Err_0 == TensorError::ShapeMismatch,
    {
        match (padding(OUT_C, KERN_C, C), padding(OUT_R, KERN_R, R), crate::tensor::volume2(
            OUT_C,
            OUT_R,
        )) {
            (Some(pad_c), Some(pad_r), Some(_)) => {
                let zero = T::default();
                assert(is_default(zero));
                Ok(
                    self.convolve_from::<KERN_C, KERN_R, OUT_C, OUT_R>(
                        kernel,
                        pad_c / 2,
                        pad_r / 2,
                        zero,
                    ),
                )
            },
            _ => Err(TensorError::ShapeMismatch),
        }
    }
}

/// The element at `(a, b, c)` of a store of extents `dims`, the first axis
/// fastest; `z` where that lies outside.
pub open spec fn cube_padded<T>(store: Seq<T>, dims: (int, int, int), a: int, b: int, c: int, z: T) -> T {
    if 0 <= a < dims.0 && 0 <= b < dims.1 && 0 <= c < dims.2 {
        store[a + b * dims.0 + c * (dims.0 * dims.1)]
    } else {
        z
    }
}

/// The values of a store of extents `dims` that the kernel's elements meet
/// for output `o` of an output of extents `out.0` and `out.1` along the
/// first two axes, where the first element of a kernel of extents `kern.0`
/// and `kern.1` along them lies `base` from that output.
pub open spec fn cube_taps<T>(
    store: Seq<T>,
    dims: (int, int, int),
    o: int,
    out: (int, int),
    kern: (int, int),
    klen: nat,
    base: (int, int, int),
    z: T,
) -> Seq<T> {
    Seq::new(
        klen,
        |k: int|
            cube_padded(
                store,
                dims,
                o % out.0 + k % kern.0 + base.0,
                (o / out.0) % out.1 + (k / kern.0) % kern.1 + base.1,
                o / (out.0 * out.1) + k / (kern.0 * kern.1) + base.2,
                z,
            ),
    )
}

impl<
    T: Copy + Add<Output = T> + Mul<Output = T>,
    const D1: usize,
    const D2: usize,
    const D3: usize,
> Tensor3<T, D1, D2, D3> {
    /// The input values that the kernel's elements meet for output `o` of
    /// an output of extents `out.0` and `out.1` along the first two axes,
    /// where the first element of a kernel of extents `kern.0` and `kern.1`
    /// along them lies `base` from that output.
    pub open spec fn taps(
        &self,
        o: int,
        out: (int, int),
        kern: (int, int),
        klen: nat,
        base: (int, int, int),
        z: T,
    ) -> Seq<T> {
        cube_taps(self@, (D1 as int, D2 as int, D3 as int), o, out, kern, klen, base, z)
    }

    /// Output `o` of a convolution: from `z`, the products of the kernel's
    /// elements with the input values they meet.
    pub open spec fn conv_at(
        &self,
        kernel: Seq<T>,
        out: (int, int),
        kern: (int, int),
        base: (int, int, int),
        z: T,
        o: int,
    ) -> T {
        dot(z, self.taps(o, out, kern, kernel.len(), base, z), kernel)
    }

    /// Every product and sum of each of the first `outputs` outputs is one
    /// that `T` allows.
    pub open spec fn conv_ok(
        &self,
        kernel: Seq<T>,
        out: (int, int),
        kern: (int, int),
        base: (int, int, int),
        z: T,
        outputs: nat,
    ) -> bool {
        forall|o: int|
            0 <= o < outputs ==> dot_prefix_ok(
                z,
                #[trigger] self.taps(o, out, kern, kernel.len(), base, z),
                kernel,
                kernel.len(),
            )
    }

    /// The outputs of the convolution whose kernel starts `minus` before
    /// each output along the three axes, from `zero` and with `zero`
    /// outside the input.
    pub fn convolve_from<
        const KERN_D1: usize,
        const KERN_D2: usize,
        const KERN_D3: usize,
        const OUT_D1: usize,
        const OUT_D2: usize,
        const OUT_D3: usize,
    >(
        &self,
        kernel: &Tensor3<T, KERN_D1, KERN_D2, KERN_D3>,
        minus: (usize, usize, usize),
        zero: T,
    ) -> (r: Tensor3<T, OUT_D1, OUT_D2, OUT_D3>)
        requires
            self.wf(),
            kernel.wf(),
            T::obeys_add_spec(),
            T::obeys_mul_spec(),
            OUT_D1 * OUT_D2 * OUT_D3 <= usize::MAX,
            self.conv_ok(
                kernel@,
                (OUT_D1 as int, OUT_D2 as int),
                (KERN_D1 as int, KERN_D2 as int),
                (-minus.0, -minus.1, -minus.2),
                zero,
                (OUT_D1 * OUT_D2 * OUT_D3) as nat,
            ),
        ensures
            r.wf(),
            forall|o: int|
                0 <= o < OUT_D1 * OUT_D2 * OUT_D3 ==> r@[o] == self.conv_at(
                    kernel@,
                    (OUT_D1 as int, OUT_D2 as int),
                    (KERN_D1 as int, KERN_D2 as int),
                    (-minus.0, -minus.1, -minus.2),
                    zero,
                    o,
                ),
    {
        let weights = kernel.get_data_ref();
        let klen: usize = weights.len();
        let outputs: usize = match crate::tensor::volume3(OUT_D1, OUT_D2, OUT_D3) {
            Some(n) => n,
            None => vstd::pervasive::unreached(),
        };
        let ghost out = (OUT_D1 as int, OUT_D2 as int);
        let ghost kern = (KERN_D1 as int, KERN_D2 as int);
        let ghost base = (-minus.0, -minus.1, -minus.2);
        let mut acc: Vec<T> = repeat(zero, outputs);
        let mut k: usize = 0;
        while k < klen
            invariant
                k <= klen,
                self.wf(),
                weights@ == kernel@,
                klen == KERN_D1 * KERN_D2 * KERN_D3,
                kernel@.len() == klen,
                outputs == OUT_D1 * OUT_D2 * OUT_D3,
                out == (OUT_D1 as int, OUT_D2 as int),
                kern == (KERN_D1 as int, KERN_D2 as int),
                base == (-minus.0, -minus.1, -minus.2),
                T::obeys_add_spec(),
                T::obeys_mul_spec(),
                self.conv_ok(kernel@, out, kern, base, zero, outputs as nat),
                acc@.len() == outputs,
                forall|o: int|
                    0 <= o < outputs ==> acc@[o] == dot_prefix(
                        zero,
                        self.taps(o, out, kern, klen as nat, base, zero),
                        kernel@,
                        k as nat,
                    ),
            decreases klen - k,
        {
            proof {
                crate::index::lemma_split3(k as int, KERN_D1 as int, KERN_D2 as int, KERN_D3 as int);
                assert(KERN_D1 * KERN_D2 <= klen) by (nonlinear_arith)
                    requires
                        klen == KERN_D1 * KERN_D2 * KERN_D3,
                        0 < KERN_D1 * KERN_D2,
                        0 <= (k as int) / (KERN_D1 * KERN_D2) < KERN_D3,
                ;
            }
            let window = self.window_from::<OUT_D1, OUT_D2, OUT_D3>(
                (k % KERN_D1, minus.0),
                ((k / KERN_D1) % KERN_D2, minus.1),
                (k / (KERN_D1 * KERN_D2), minus.2),
                zero,
            );
            let w = weights[k];
            let ghost before = acc@;
            proof {
                let products = scaled(window@, w);
                assert forall|o: int| 0 <= o < outputs implies #[trigger] window@[o].mul_req(w) by {
                    let taps = self.taps(o, out, kern, klen as nat, base, zero);
                    lemma_dot_step(zero, taps, kernel@, klen as nat, k as nat);
                    assert(taps[k as int] == window@[o]);
                }
                assert forall|o: int| 0 <= o < outputs implies #[trigger] before[o].add_req(
                    products[o],
                ) && before[o].add_spec(products[o]) == dot_prefix(
                    zero,
                    self.taps(o, out, kern, klen as nat, base, zero),
                    kernel@,
                    (k + 1) as nat,
                ) by {
                    let taps = self.taps(o, out, kern, klen as nat, base, zero);
                    lemma_dot_step(zero, taps, kernel@, klen as nat, k as nat);
                    assert(taps[k as int] == window@[o]);
                }
            }
            acc = accumulate(&acc, window.get_data_ref(), w);
            k += 1;
        }
        Tensor3::from_parts(acc)
    }

    /// The convolution over every position where the kernel lies inside
    /// the input: along each axis one more output than the input's extent
    /// exceeds the kernel's.
    pub fn convolve<
        const KERN_D1: usize,
        const KERN_D2: usize,
        const KERN_D3: usize,
        const OUT_D1: usize,
        const OUT_D2: usize,
        const OUT_D3: usize,
    >(&self, kernel: &Tensor3<T, KERN_D1, KERN_D2, KERN_D3>) -> (r: Result<
        Tensor3<T, OUT_D1, OUT_D2, OUT_D3>,
        TensorError,
    >) where T: Default
        requires
            self.wf(),
            kernel.wf(),
            T::obeys_add_spec(),
            T::obeys_mul_spec(),
            OUT_D1 + KERN_D1 == D1 + 1 && OUT_D2 + KERN_D2 == D2 + 1 && OUT_D3 + KERN_D3 == D3 + 1
                && OUT_D1 * OUT_D2 * OUT_D3 <= usize::MAX ==> forall|z: T|
                is_default(z) ==> self.conv_ok(
                    kernel@,
                    (OUT_D1 as int, OUT_D2 as int),
                    (KERN_D1 as int, KERN_D2 as int),
                    (0, 0, 0),
                    z,
                    (OUT_D1 * OUT_D2 * OUT_D3) as nat,
                ),
        ensures
            r is Ok <==> OUT_D1 + KERN_D1 == D1 + 1 && OUT_D2 + KERN_D2 == D2 + 1 && OUT_D3
                + KERN_D3 == D3 + 1 && OUT_D1 * OUT_D2 * OUT_D3 <= usize::MAX,
            r is Ok ==> r->Ok_0.wf() && exists|z: T|
                is_default(z) && forall|o: int|
                    0 <= o < OUT_D1 * OUT_D2 * OUT_D3 ==> r->Ok_0@[o] == self.conv_at(
                        kernel@,
                        (OUT_D1 as int, OUT_D2 as int),
                        (KERN_D1 as int, KERN_D2 as int),
                        (0, 0, 0),
                        z,
                        o,
                    ),
            r is Err ==> r->Err_0 == TensorError::ShapeMismatch,
    {
        if !spans_exactly(OUT_D1, KERN_D1, D1) || !spans_exactly(OUT_D2, KERN_D2, D2)
            || !spans_exactly(OUT_D3, KERN_D3, D3) || crate::tensor::volume3(
            OUT_D1,
            OUT_D2,
            OUT_D3,
        ).is_none() {
            return Err(TensorError::ShapeMismatch);
        }
        let zero = T::default();
        assert(is_default(zero));
        Ok(
            self.convolve_from::<KERN_D1, KERN_D2, KERN_D3, OUT_D1, OUT_D2, OUT_D3>(
                kernel,
                (0, 0, 0),
                zero,
            ),
        )
    }

    /// The convolution with the kernel centred on each input position:
    /// the input's own shape.
    pub fn convolve_with_pad<const KERN_D1: usize, const KERN_D2: usize, const KERN_D3: usize>(
        &self,
        kernel: &Tensor3<T, KERN_D1, KERN_D2, KERN_D3>,
    ) -> (r: Tensor3<T, D1, D2, D3>) where T: Default
        requires
            self.wf(),
            kernel.wf(),
            T::obeys_add_spec(),
            T::obeys_mul_spec(),
            forall|z: T|
                is_default(z) ==> self.conv_ok(
                    kernel@,
                    (D1 as int, D2 as int),
                    (KERN_D1 as int, KERN_D2 as int),
                    (-(KERN_D1 / 2), -(KERN_D2 / 2), -(KERN_D3 / 2)),
                    z,
                    (D1 * D2 * D3) as nat,
                ),
        ensures
            r.wf(),
            exists|z: T|
                is_default(z) && forall|o: int|
                    0 <= o < D1 * D2 * D3 ==> r@[o] == self.conv_at(
                        kernel@,
                        (D1 as int, D2 as int),
                        (KERN_D1 as int, KERN_D2 as int),
                        (-(KERN_D1 / 2), -(KERN_D2 / 2), -(KERN_D3 / 2)),
                        z,
                        o,
                    ),
    {
        let whole: usize = self.get_data_ref().len();
        let zero = T::default();
        assert(is_default(zero));
        self.convolve_from::<KERN_D1, KERN_D2, KERN_D3, D1, D2, D3>(
            kernel,
            (KERN_D1 / 2, KERN_D2 / 2, KERN_D3 / 2),
            zero,
        )
    }

    /// The convolution with as much padding as the outputs need, half of
    /// it before the input along each axis.
    pub fn convolve_with_pad_to<
        const KERN_D1: usize,
        const KERN_D2: usize,
        const KERN_D3: usize,
        const OUT_D1: usize,
        const OUT_D2: usize,
        const OUT_D3: usize,
    >(&self, kernel: &Tensor3<T, KERN_D1, KERN_D2, KERN_D3>) -> (r: Result<
        Tensor3<T, OUT_D1, OUT_D2, OUT_D3>,
        TensorError,
    >) where T: Default
        requires
            self.wf(),
            kernel.wf(),
            T::obeys_add_spec(),
            T::obeys_mul_spec(),
            Self::pads_to(
                (OUT_D1 as int, OUT_D2 as int, OUT_D3 as int),
                (KERN_D1 as int, KERN_D2 as int, KERN_D3 as int),
            ) ==> forall|z: T|
                is_default(z) ==> self.conv_ok(
                    kernel@,
                    (OUT_D1 as int, OUT_D2 as int),
                    (KERN_D1 as int, KERN_D2 as int),
                    (
                        -((OUT_D1 + KERN_D1 - D1 - 1) / 2),
                        -((OUT_D2 + KERN_D2 - D2 - 1) / 2),
                        -((OUT_D3 + KERN_D3 - D3 - 1) / 2),
                    ),
                    z,
                    (OUT_D1 * OUT_D2 * OUT_D3) as nat,
                ),
        ensures
            r is Ok <==> Self::pads_to(
                (OUT_D1 as int, OUT_D2 as int, OUT_D3 as int),
                (KERN_D1 as int, KERN_D2 as int, KERN_D3 as int),
            ),
            r is Ok ==> r->Ok_0.wf() && exists|z: T|
                is_default(z) && forall|o: int|
                    0 <= o < OUT_D1 * OUT_D2 * OUT_D3 ==> r->Ok_0@[o] == self.conv_at(
                        kernel@,
                        (OUT_D1 as int, OUT_D2 as int),
                        (KERN_D1 as int, KERN_D2 as int),
                        (
                            -((OUT_D1 + KERN_D1 - D1 - 1) / 2),
                            -((OUT_D2 + KERN_D2 - D2 - 1) / 2),
                            -((OUT_D3 + KERN_D3 - D3 - 1) / 2),
                        ),
                        z,
                        o,
                    ),
            r is Err ==> r->Err_0 == TensorError::ShapeMismatch,
    {
        match (
            padding(OUT_D1, KERN_D1, D1),
            padding(OUT_D2, KERN_D2, D2),
            padding(OUT_D3, KERN_D3, D3),
            crate::tensor::volume3(OUT_D1, OUT_D2, OUT_D3),
        ) {
            (Some(pad_1), Some(pad_2), Some(pad_3), Some(_)) => {
                let zero = T::default();
                assert(is_default(zero));
                Ok(
                    self.convolve_from::<KERN_D1, KERN_D2, KERN_D3, OUT_D1, OUT_D2, OUT_D3>(
                        kernel,
                        (pad_1 / 2, pad_2 / 2, pad_3 / 2),
                        zero,
                    ),
                )
            },
            _ => Err(TensorError::ShapeMismatch),
        }
    }

    /// An output of extents `out` can be had from this shape and a kernel
    /// of extents `kern` by padding: along no axis is the padding negative,
    /// and the extents' sums and the output's element count fit a `usize`.
    pub open spec fn pads_to(out: (int, int, int), kern: (int, int, int)) -> bool {
        &&& D1 + 1 <= out.0 + kern.0 <= usize::MAX
        &&& D2 + 1 <= out.1 + kern.1 <= usize::MAX
        &&& D3 + 1 <= out.2 + kern.2 <= usize::MAX
        &&& out.0 * out.1 * out.2 <= usize::MAX
    }
}

/// Along an axis, a convolution over the positions where a kernel of at
/// least one element lies inside the input gives the input's extent less
/// one less than the kernel's.
pub proof fn lemma_valid_extent(out: int, kern: int, len: int)
    requires
        1 <= kern <= len,
        out + kern == len + 1,
    ensures
        out == len - (kern - 1),
        1 <= out <= len,
{
}

/// The convolution with the kernel centred keeps the shape, whatever the
/// kernel's: input and output hold the same number of elements.
pub proof fn lemma_padded_convolution_keeps_shape<T: Copy, const C: usize, const R: usize>(
    input: Tensor2<T, C, R>,
    output: Tensor2<T, C, R>,
)
    requires
        input.wf(),
        output.wf(),
    ensures
        output@.len() == input@.len(),
        output@.len() == C * R,
{
}

/// The convolution over the positions where the kernel lies inside the
/// input shrinks every extent by one less than the kernel's, and its
/// output holds no more elements than the input.
pub proof fn lemma_valid_convolution_shrinks<
    T: Copy,
    const C: usize,
    const R: usize,
    const OUT_C: usize,
    const OUT_R: usize,
>(input: Tensor2<T, C, R>, output: Tensor2<T, OUT_C, OUT_R>, kern_c: int, kern_r: int)
    requires
        input.wf(),
        output.wf(),
        1 <= kern_c <= C,
        1 <= kern_r <= R,
        OUT_C + kern_c == C + 1,
        OUT_R + kern_r == R + 1,
    ensures
        OUT_C == C - (kern_c - 1),
        OUT_R == R - (kern_r - 1),
        output@.len() == (C - (kern_c - 1)) * (R - (kern_r - 1)),
        OUT_C * OUT_R <= input@.len(),
{
    assert(OUT_C * OUT_R <= C * R) by (nonlinear_arith)
        requires
            0 <= OUT_C <= C,
            0 <= OUT_R <= R,
    ;
}

} // verus!
