//! Gradient steps through the layers of a network.
//!
//! Each step takes the derivatives of the loss with respect to a layer's
//! outputs, moves the layer's parameters against their gradient by the
//! learning rate, and gives the derivatives with respect to the layer's
//! inputs, taken at the parameters before the move.

use core::ops::Add;
use core::ops::Mul;
use core::ops::Sub;
use vstd::pervasive::unreached;
use vstd::prelude::*;
use vstd::std_specs::ops::AddSpec;
use vstd::std_specs::ops::MulSpec;
use vstd::std_specs::ops::SubSpec;
use crate::convolution::cube_taps;
use crate::elementwise::add_each;
use crate::elementwise::scale_each;
use crate::elementwise::scale_ok;
use crate::elementwise::scaled;
use crate::elementwise::sub_all_ok;
use crate::elementwise::sub_each;
use crate::elementwise::subtracted;
use crate::network::all_wf;
use crate::ml::plane_of;
use crate::numeric::dot;
use crate::numeric::dot_of;
use crate::numeric::dot_prefix_ok;
use crate::numeric::is_default;
use crate::numeric::lemma_sum_step;
use crate::numeric::lemma_total_dot;
use crate::numeric::lemma_total_sum;
use crate::numeric::sum_prefix;
use crate::numeric::sum_prefix_ok;
use crate::numeric::total;
use crate::tensor::repeat;
use crate::tensor::reverse_store;
use crate::tensor::Tensor;
use crate::tensor::Tensor1;
use crate::tensor::Tensor3;

verus! {

/// The weights that input `a` has in the rows of a fully connected layer.
pub open spec fn column<T: Copy, const A: usize>(weights: Seq<Tensor1<T, A>>, a: int) -> Seq<T> {
    Seq::new(weights.len(), |b: int| weights[b]@[a])
}

/// A gradient step took a fully connected layer from the weights and
/// biases `before` to those `after`, and gave `back`.
///
/// Row `b` of the weights lost the input scaled by output `b`'s derivative
/// times the learning rate, and the biases lost the derivatives scaled by
/// the learning rate. The derivative with respect to input `a` is the dot
/// product, from a default value, of the outputs' derivatives with the
/// weights that the input had before.
pub open spec fn dense_stepped<
    T: Copy + Add<Output = T> + Sub<Output = T> + Mul<Output = T> + Default,
    const A: usize,
>(
    before: (Seq<Tensor1<T, A>>, Seq<T>),
    after: (Seq<Tensor1<T, A>>, Seq<T>),
    inputs: Seq<T>,
    derivatives: Seq<T>,
    learning_rate: T,
    back: Seq<T>,
) -> bool {
    &&& after.0.len() == before.0.len()
    &&& forall|b: int|
        0 <= b < before.0.len() ==> (#[trigger] after.0[b])@ == subtracted(
            before.0[b]@,
            scaled(inputs, derivatives[b].mul_spec(learning_rate)),
        )
    &&& after.1 == subtracted(before.1, scaled(derivatives, learning_rate))
    &&& back.len() == A
    &&& exists|z: T|
        is_default(z) && forall|a: int|
            0 <= a < A ==> back[a] == dot(z, derivatives, column(before.0, a))
}

/// Every product, difference and sum of a gradient step through a fully
/// connected layer, with dot products from `z`, is one that `T` allows.
pub open spec fn dense_step_ok<
    T: Copy + Add<Output = T> + Sub<Output = T> + Mul<Output = T>,
    const A: usize,
>(
    weights: Seq<Tensor1<T, A>>,
    biases: Seq<T>,
    inputs: Seq<T>,
    derivatives: Seq<T>,
    learning_rate: T,
    z: T,
) -> bool {
    &&& scale_ok(derivatives, learning_rate)
    &&& sub_all_ok(biases, scaled(derivatives, learning_rate))
    &&& forall|b: int|
        0 <= b < weights.len() ==> scale_ok(inputs, derivatives[b].mul_spec(learning_rate))
            && sub_all_ok(
            (#[trigger] weights[b])@,
            scaled(inputs, derivatives[b].mul_spec(learning_rate)),
        )
    &&& forall|a: int|
        0 <= a < A ==> dot_prefix_ok(
            z,
            derivatives,
            #[trigger] column(weights, a),
            derivatives.len(),
        )
}

/// Where every operand is allowed, every gradient step through a fully
/// connected layer is.
pub proof fn lemma_total_dense_step<
    T: Copy + Add<Output = T> + Sub<Output = T> + Mul<Output = T>,
    const A: usize,
>(
    weights: Seq<Tensor1<T, A>>,
    biases: Seq<T>,
    inputs: Seq<T>,
    derivatives: Seq<T>,
    learning_rate: T,
    z: T,
)
    requires
        total::<T>(),
        biases.len() == derivatives.len(),
        forall|b: int| 0 <= b < weights.len() ==> (#[trigger] weights[b])@.len() == inputs.len(),
    ensures
        dense_step_ok(weights, biases, inputs, derivatives, learning_rate, z),
{
    assert forall|a: int| 0 <= a < A implies dot_prefix_ok(
        z,
        derivatives,
        #[trigger] column(weights, a),
        derivatives.len(),
    ) by {
        lemma_total_dot(z, derivatives, column(weights, a), derivatives.len());
    }
}

/// A gradient step through a fully connected layer of `A` inputs and `B`
/// outputs: see `dense_stepped`.
pub fn bp_fully_connected<
    T: Copy + Add<Output = T> + Sub<Output = T> + Mul<Output = T> + Default,
    const A: usize,
    const B: usize,
>(
    weights: &mut Vec<Tensor1<T, A>>,
    biases: &mut Tensor1<T, B>,
    prev_activations: &Tensor1<T, A>,
    next_layer_derivatives: &Tensor1<T, B>,
    learning_rate: T,
) -> (r: Tensor1<T, A>)
    requires
        T::obeys_add_spec(),
        T::obeys_sub_spec(),
        T::obeys_mul_spec(),
        old(weights)@.len() == B,
        all_wf(old(weights)@),
        old(biases).wf(),
        prev_activations.wf(),
        next_layer_derivatives.wf(),
        forall|z: T|
            is_default(z) ==> dense_step_ok(
                old(weights)@,
                old(biases)@,
                prev_activations@,
                next_layer_derivatives@,
                learning_rate,
                z,
            ),
    ensures
        all_wf(final(weights)@),
        final(biases).wf(),
        r.wf(),
        dense_stepped(
            (old(weights)@, old(biases)@),
            (final(weights)@, final(biases)@),
            prev_activations@,
            next_layer_derivatives@,
            learning_rate,
            r@,
        ),
{
    let zero = T::default();
    assert(is_default(zero));
    let derivatives = next_layer_derivatives.get_data_ref();
    let inputs = prev_activations.get_data_ref();
    let mut back: Vec<T> = Vec::new();
    let mut a: usize = 0;
    while a < A
        invariant
            a <= A,
            T::obeys_add_spec(),
            T::obeys_mul_spec(),
            weights@ == old(weights)@,
            weights@.len() == B,
            all_wf(weights@),
            derivatives@ == next_layer_derivatives@,
            derivatives@.len() == B,
            dense_step_ok(
                old(weights)@,
                old(biases)@,
                prev_activations@,
                next_layer_derivatives@,
                learning_rate,
                zero,
            ),
            back@.len() == a,
            forall|n: int|
                0 <= n < a ==> back@[n] == dot(zero, next_layer_derivatives@, column(weights@, n)),
        decreases A - a,
    {
        let mut col: Vec<T> = Vec::new();
        let mut b: usize = 0;
        while b < B
            invariant
                b <= B,
                a < A,
                weights@.len() == B,
                all_wf(weights@),
                col@.len() == b,
                forall|m: int| 0 <= m < b ==> col@[m] == weights@[m]@[a as int],
            decreases B - b,
        {
            assert(weights@[b as int].wf());
            col.push(weights[b].nth(a));
            b += 1;
        }
        proof {
            assert(col@ =~= column(weights@, a as int));
            assert(dot_prefix_ok(
                zero,
                derivatives@,
                column(old(weights)@, a as int),
                derivatives@.len(),
            ));
        }
        back.push(dot_of(zero, derivatives, &col));
        a += 1;
    }
    let mut b: usize = 0;
    while b < B
        invariant
            b <= B,
            T::obeys_sub_spec(),
            T::obeys_mul_spec(),
            weights@.len() == B,
            old(weights)@.len() == B,
            all_wf(old(weights)@),
            all_wf(weights@),
            inputs@ == prev_activations@,
            inputs@.len() == A,
            derivatives@ == next_layer_derivatives@,
            derivatives@.len() == B,
            dense_step_ok(
                old(weights)@,
                old(biases)@,
                prev_activations@,
                next_layer_derivatives@,
                learning_rate,
                zero,
            ),
            forall|m: int| b <= m < B ==> weights@[m] == old(weights)@[m],
            forall|m: int|
                0 <= m < b ==> (#[trigger] weights@[m])@ == subtracted(
                    old(weights)@[m]@,
                    scaled(
                        prev_activations@,
                        next_layer_derivatives@[m].mul_spec(learning_rate),
                    ),
                ),
        decreases B - b,
    {
        proof {
            assert(derivatives@[b as int].mul_req(learning_rate));
            assert(weights@[b as int] == old(weights)@[b as int]);
            assert(sub_all_ok(
                old(weights)@[b as int]@,
                scaled(inputs@, derivatives@[b as int].mul_spec(learning_rate)),
            ));
        }
        let step = derivatives[b] * learning_rate;
        let change = scale_each(inputs, step);
        assert(weights@[b as int].wf());
        let updated = sub_each(weights[b].get_data_ref(), &change);
        weights[b] = Tensor1::from_parts(updated);
        b += 1;
    }
    let change = scale_each(derivatives, learning_rate);
    let updated = sub_each(biases.get_data_ref(), &change);
    *biases = Tensor1::from_parts(updated);
    Tensor1::from_parts(back)
}

/// The gradient of a kernel of three by three by `channels`: the
/// convolution, from `z`, of the layer's input with plane `i` of the
/// outputs' derivatives.
pub open spec fn kernel_gradient<T: Add<Output = T> + Mul<Output = T>>(
    input: Seq<T>,
    channels: int,
    derivatives: Seq<T>,
    i: int,
    z: T,
) -> Seq<T> {
    Seq::new(
        (3 * 3 * channels) as nat,
        |o: int|
            dot(
                z,
                cube_taps(input, (5, 5, channels), o, (3, 3), (5, 5), 25, (-1, -1, 0), z),
                plane_of(derivatives, 25, i),
            ),
    )
}

/// What kernel `i` passes back to the layer's input: the convolution,
/// from `z`, of the kernel turned around with plane `i` of the outputs'
/// derivatives, turned around again.
pub open spec fn input_gradient<T: Add<Output = T> + Mul<Output = T>>(
    kernel: Seq<T>,
    channels: int,
    derivatives: Seq<T>,
    i: int,
    z: T,
) -> Seq<T> {
    Seq::new(
        (5 * 5 * channels) as nat,
        |o: int|
            dot(
                z,
                cube_taps(
                    kernel.reverse(),
                    (3, 3, channels),
                    5 * 5 * channels - 1 - o,
                    (5, 5),
                    (5, 5),
                    25,
                    (-3, -3, 0),
                    z,
                ),
                plane_of(derivatives, 25, i),
            ),
    )
}

/// What each kernel passes back to element `o` of the layer's input.
pub open spec fn input_gradients<T: Copy + Add<Output = T> + Mul<Output = T>, const A: usize>(
    kernels: Seq<Tensor3<T, 3, 3, A>>,
    derivatives: Seq<T>,
    z: T,
    o: int,
) -> Seq<T> {
    Seq::new(kernels.len(), |i: int| input_gradient(kernels[i]@, A as int, derivatives, i, z)[o])
}

/// A gradient step took a convolution layer over `A` channels from the
/// kernels and biases `before` to those `after`, and gave `back`.
///
/// Kernel `i` lost its gradient scaled by the learning rate, and the
/// biases lost the derivatives scaled by the learning rate. The derivative
/// with respect to an element of the input is the sum, from a default
/// value, of what the kernels, as they were before, pass back to it.
pub open spec fn conv_stepped<
    T: Copy + Add<Output = T> + Sub<Output = T> + Mul<Output = T> + Default,
    const A: usize,
>(
    before: (Seq<Tensor3<T, 3, 3, A>>, Seq<T>),
    after: (Seq<Tensor3<T, 3, 3, A>>, Seq<T>),
    inputs: Seq<T>,
    derivatives: Seq<T>,
    learning_rate: T,
    back: Seq<T>,
) -> bool {
    &&& after.0.len() == before.0.len()
    &&& after.1 == subtracted(before.1, scaled(derivatives, learning_rate))
    &&& back.len() == 5 * 5 * A
    &&& exists|z: T|
        {
            &&& is_default(z)
            &&& forall|i: int|
                0 <= i < before.0.len() ==> (#[trigger] after.0[i])@ == subtracted(
                    before.0[i]@,
                    scaled(kernel_gradient(inputs, A as int, derivatives, i, z), learning_rate),
                )
            &&& forall|o: int|
                0 <= o < 5 * 5 * A ==> back[o] == sum_prefix(
                    z,
                    input_gradients(before.0, derivatives, z, o),
                    before.0.len(),
                )
        }
}

/// Every product, difference and sum of the step of kernel `i` is one
/// that `T` allows: of its gradient, of its move against the gradient, and
/// of what it passes back.
pub open spec fn kernel_step_ok<T: Add<Output = T> + Sub<Output = T> + Mul<Output = T>>(
    kernel: Seq<T>,
    inputs: Seq<T>,
    channels: int,
    derivatives: Seq<T>,
    i: int,
    learning_rate: T,
    z: T,
) -> bool {
    &&& forall|o: int|
        0 <= o < 3 * 3 * channels ==> dot_prefix_ok(
            z,
            #[trigger] cube_taps(inputs, (5, 5, channels), o, (3, 3), (5, 5), 25, (-1, -1, 0), z),
            plane_of(derivatives, 25, i),
            25,
        )
    &&& scale_ok(kernel_gradient(inputs, channels, derivatives, i, z), learning_rate)
    &&& sub_all_ok(
        kernel,
        scaled(kernel_gradient(inputs, channels, derivatives, i, z), learning_rate),
    )
    &&& forall|o: int|
        0 <= o < 5 * 5 * channels ==> dot_prefix_ok(
            z,
            #[trigger] cube_taps(
                kernel.reverse(),
                (3, 3, channels),
                o,
                (5, 5),
                (5, 5),
                25,
                (-3, -3, 0),
                z,
            ),
            plane_of(derivatives, 25, i),
            25,
        )
}

/// Every product, difference and sum of a gradient step through a
/// convolution layer, with sums from `z`, is one that `T` allows.
pub open spec fn conv_step_ok<
    T: Copy + Add<Output = T> + Sub<Output = T> + Mul<Output = T>,
    const A: usize,
>(
    kernels: Seq<Tensor3<T, 3, 3, A>>,
    biases: Seq<T>,
    inputs: Seq<T>,
    derivatives: Seq<T>,
    learning_rate: T,
    z: T,
) -> bool {
    &&& scale_ok(derivatives, learning_rate)
    &&& sub_all_ok(biases, scaled(derivatives, learning_rate))
    &&& forall|i: int|
        0 <= i < kernels.len() ==> kernel_step_ok(
            (#[trigger] kernels[i])@,
            inputs,
            A as int,
            derivatives,
            i,
            learning_rate,
            z,
        )
    &&& forall|o: int|
        0 <= o < 5 * 5 * A ==> sum_prefix_ok(
            z,
            #[trigger] input_gradients(kernels, derivatives, z, o),
            kernels.len(),
        )
}

/// Where every operand is allowed, every gradient step through a
/// convolution layer is.
pub proof fn lemma_total_conv_step<
    T: Copy + Add<Output = T> + Sub<Output = T> + Mul<Output = T>,
    const A: usize,
>(
    kernels: Seq<Tensor3<T, 3, 3, A>>,
    biases: Seq<T>,
    inputs: Seq<T>,
    derivatives: Seq<T>,
    learning_rate: T,
    z: T,
)
    requires
        total::<T>(),
        biases.len() == derivatives.len(),
        forall|i: int| 0 <= i < kernels.len() ==> (#[trigger] kernels[i])@.len() == 3 * 3 * A,
    ensures
        conv_step_ok(kernels, biases, inputs, derivatives, learning_rate, z),
{
    assert forall|i: int| 0 <= i < kernels.len() implies kernel_step_ok(
        (#[trigger] kernels[i])@,
        inputs,
        A as int,
        derivatives,
        i,
        learning_rate,
        z,
    ) by {
        let kernel = kernels[i]@;
        assert forall|o: int| 0 <= o < 3 * 3 * A implies dot_prefix_ok(
            z,
            #[trigger] cube_taps(inputs, (5, 5, A as int), o, (3, 3), (5, 5), 25, (-1, -1, 0), z),
            plane_of(derivatives, 25, i),
            25,
        ) by {
            lemma_total_dot(
                z,
                cube_taps(inputs, (5, 5, A as int), o, (3, 3), (5, 5), 25, (-1, -1, 0), z),
                plane_of(derivatives, 25, i),
                25,
            );
        }
        assert forall|o: int| 0 <= o < 5 * 5 * A implies dot_prefix_ok(
            z,
            #[trigger] cube_taps(
                kernel.reverse(),
                (3, 3, A as int),
                o,
                (5, 5),
                (5, 5),
                25,
                (-3, -3, 0),
                z,
            ),
            plane_of(derivatives, 25, i),
            25,
        ) by {
            lemma_total_dot(
                z,
                cube_taps(kernel.reverse(), (3, 3, A as int), o, (5, 5), (5, 5), 25, (-3, -3, 0), z),
                plane_of(derivatives, 25, i),
                25,
            );
        }
    }
    assert forall|o: int| 0 <= o < 5 * 5 * A implies sum_prefix_ok(
        z,
        #[trigger] input_gradients(kernels, derivatives, z, o),
        kernels.len(),
    ) by {
        lemma_total_sum(z, input_gradients(kernels, derivatives, z, o), kernels.len());
    }
}

/// A gradient step through a convolution layer of `B` kernels over `A`
/// channels: see `conv_stepped`.
pub fn bp_convolution<
    T: Copy + Add<Output = T> + Sub<Output = T> + Mul<Output = T> + Default,
    const A: usize,
    const B: usize,
>(
    kernels: &mut Vec<Tensor3<T, 3, 3, A>>,
    biases: &mut Tensor3<T, 5, 5, B>,
    prev_activations: &Tensor3<T, 5, 5, A>,
    next_layer_derivatives: &Tensor3<T, 5, 5, B>,
    learning_rate: T,
) -> (r: Tensor3<T, 5, 5, A>)
    requires
        T::obeys_add_spec(),
        T::obeys_sub_spec(),
        T::obeys_mul_spec(),
        old(kernels)@.len() == B,
        all_wf(old(kernels)@),
        old(biases).wf(),
        prev_activations.wf(),
        next_layer_derivatives.wf(),
        forall|z: T|
            is_default(z) ==> conv_step_ok(
                old(kernels)@,
                old(biases)@,
                prev_activations@,
                next_layer_derivatives@,
                learning_rate,
                z,
            ),
    ensures
        all_wf(final(kernels)@),
        final(biases).wf(),
        r.wf(),
        conv_stepped(
            (old(kernels)@, old(biases)@),
            (final(kernels)@, final(biases)@),
            prev_activations@,
            next_layer_derivatives@,
            learning_rate,
            r@,
        ),
{
    let zero = T::default();
    assert(is_default(zero));
    let size: usize = prev_activations.get_data_ref().len();
    let derivatives = next_layer_derivatives.get_data_ref();
    proof {
        Tensor3::<T, 5, 5, A>::lemma_volume();
        Tensor3::<T, 3, 3, A>::lemma_volume();
        Tensor3::<T, 5, 5, 1>::lemma_volume();
    }
    let mut back: Vec<T> = repeat(zero, size);
    let mut i: usize = 0;
    while i < B
        invariant
            i <= B,
            T::obeys_add_spec(),
            T::obeys_sub_spec(),
            T::obeys_mul_spec(),
            size == 5 * 5 * A,
            kernels@.len() == B,
            old(kernels)@.len() == B,
            all_wf(old(kernels)@),
            all_wf(kernels@),
            prev_activations.wf(),
            next_layer_derivatives.wf(),
            conv_step_ok(
                old(kernels)@,
                old(biases)@,
                prev_activations@,
                next_layer_derivatives@,
                learning_rate,
                zero,
            ),
            forall|m: int| i <= m < B ==> kernels@[m] == old(kernels)@[m],
            forall|m: int|
                0 <= m < i ==> (#[trigger] kernels@[m])@ == subtracted(
                    old(kernels)@[m]@,
                    scaled(
                        kernel_gradient(
                            prev_activations@,
                            A as int,
                            next_layer_derivatives@,
                            m,
                            zero,
                        ),
                        learning_rate,
                    ),
                ),
            back@.len() == size,
            forall|o: int|
                0 <= o < size ==> back@[o] == sum_prefix(
                    zero,
                    input_gradients(old(kernels)@, next_layer_derivatives@, zero, o),
                    i as nat,
                ),
        decreases B - i,
    {
        assert(kernels@[i as int].wf());
        assert(kernels@[i as int] == old(kernels)@[i as int]);
        let ghost kernel = kernels@[i as int]@;
        assert(kernel_step_ok(
            kernel,
            prev_activations@,
            A as int,
            next_layer_derivatives@,
            i as int,
            learning_rate,
            zero,
        ));
        let count: usize = kernels[i].get_data_ref().len();
        let plane: Tensor3<T, 5, 5, 1> = match next_layer_derivatives.channel(i).reshape() {
            Ok(plane) => plane,
            Err(_) => unreached(),
        };
        proof {
            assert forall|o: int| 0 <= o < 3 * 3 * A implies dot_prefix_ok(
                zero,
                #[trigger] prev_activations.taps(o, (3, 3), (5, 5), plane@.len(), (-1, -1, -0), zero),
                plane@,
                plane@.len(),
            ) by {
                assert(prev_activations.taps(o, (3, 3), (5, 5), plane@.len(), (-1, -1, -0), zero)
                    == cube_taps(
                    prev_activations@,
                    (5, 5, A as int),
                    o,
                    (3, 3),
                    (5, 5),
                    25,
                    (-1, -1, 0),
                    zero,
                ));
            }
        }
        let gradient = prev_activations.convolve_from::<5, 5, 1, 3, 3, A>(&plane, (1, 1, 0), zero);
        proof {
            assert(gradient@ =~= kernel_gradient(
                prev_activations@,
                A as int,
                next_layer_derivatives@,
                i as int,
                zero,
            ));
        }
        let change = scale_each(gradient.get_data_ref(), learning_rate);
        let flipped: Tensor3<T, 3, 3, A> = Tensor3::from_parts(
            reverse_store(kernels[i].get_data_ref()),
        );
        proof {
            assert forall|o: int| 0 <= o < 5 * 5 * A implies dot_prefix_ok(
                zero,
                #[trigger] flipped.taps(o, (5, 5), (5, 5), plane@.len(), (-3, -3, -0), zero),
                plane@,
                plane@.len(),
            ) by {
                assert(flipped.taps(o, (5, 5), (5, 5), plane@.len(), (-3, -3, -0), zero)
                    == cube_taps(
                    kernel.reverse(),
                    (3, 3, A as int),
                    o,
                    (5, 5),
                    (5, 5),
                    25,
                    (-3, -3, 0),
                    zero,
                ));
            }
        }
        let passed = flipped.convolve_from::<5, 5, 1, 5, 5, A>(&plane, (3, 3, 0), zero);
        let turned = reverse_store(passed.get_data_ref());
        let ghost before = back@;
        proof {
            let wanted = input_gradient(kernel, A as int, next_layer_derivatives@, i as int, zero);
            assert(turned@ =~= wanted);
            assert forall|o: int| 0 <= o < size implies #[trigger] before[o].add_req(turned@[o])
                && before[o].add_spec(turned@[o]) == sum_prefix(
                zero,
                input_gradients(old(kernels)@, next_layer_derivatives@, zero, o),
                (i + 1) as nat,
            ) by {
                let seq = input_gradients(old(kernels)@, next_layer_derivatives@, zero, o);
                assert(seq[i as int] == turned@[o]);
                lemma_sum_step(zero, seq, B as nat, i as nat);
            }
        }
        back = add_each(&back, &turned);
        let updated = sub_each(kernels[i].get_data_ref(), &change);
        kernels[i] = Tensor3::from_parts(updated);
        i += 1;
    }
    let change = scale_each(derivatives, learning_rate);
    let updated = sub_each(biases.get_data_ref(), &change);
    *biases = Tensor3::from_parts(updated);
    Tensor3::from_parts(back)
}

} // verus!
