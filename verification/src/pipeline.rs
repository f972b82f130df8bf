//! The network's layers one after the other: the forward pass that keeps
//! every layer's values, and the gradient step back through all layers.

use core::ops::Add;
use core::ops::Mul;
use core::ops::Sub;
use vstd::prelude::*;
use crate::backprop::bp_convolution;
use crate::backprop::bp_fully_connected;
use crate::backprop::conv_step_ok;
use crate::backprop::conv_stepped;
use crate::backprop::dense_step_ok;
use crate::backprop::dense_stepped;
use crate::backprop::lemma_total_conv_step;
use crate::backprop::lemma_total_dense_step;
use crate::elementwise::map_each;
use crate::elementwise::mapped;
use crate::elementwise::mul_each;
use crate::elementwise::multiplied;
use crate::ml::convolves;
use crate::ml::dense_at;
use crate::ml::dense_ok;
use crate::network::Network;
use crate::numeric::is_default;
use crate::numeric::lemma_total_dot;
use crate::numeric::total;
use crate::tensor::Tensor;
use crate::tensor::Tensor1;
use crate::tensor::Tensor2;
use crate::tensor::Tensor3;

verus! {

/// `out` is what a convolution layer makes of `input`.
pub open spec fn conv_layer<
    T: Copy + Add<Output = T> + Mul<Output = T> + Default,
    const D3: usize,
    const N: usize,
>(
    input: Tensor3<T, 5, 5, D3>,
    kernels: Seq<Tensor3<T, 3, 3, D3>>,
    biases: Seq<T>,
    out: Tensor3<T, 5, 5, N>,
) -> bool {
    exists|z: T|
        is_default(z) && forall|i: int|
            0 <= i < 5 * 5 * N ==> out@[i] == input.pass_at(kernels, biases, z, i)
}

/// `out` is what a fully connected layer makes of `input`.
pub open spec fn dense_layer<
    T: Copy + Add<Output = T> + Mul<Output = T> + Default,
    const L: usize,
    const N: usize,
>(input: Tensor1<T, L>, weights: Seq<Tensor1<T, L>>, biases: Seq<T>, out: Tensor1<T, N>) -> bool {
    exists|z: T|
        is_default(z) && forall|n: int|
            0 <= n < N ==> out@[n] == dense_at(input@, weights[n]@, biases[n], z)
}

/// The values of every layer in a forward pass: `x` before the
/// activation, `a` after it.
#[derive(Clone, Debug, PartialEq)]
pub struct Trace<T> {
    pub l1_x: Tensor3<T, 5, 5, 64>,
    pub l1_a: Tensor3<T, 5, 5, 64>,
    pub l2_x: Tensor3<T, 5, 5, 64>,
    pub l2_a: Tensor3<T, 5, 5, 64>,
    pub l3_x: Tensor3<T, 5, 5, 64>,
    pub l3_a: Tensor3<T, 5, 5, 64>,
    pub l4_x: Tensor3<T, 5, 5, 64>,
    pub l4_a: Tensor1<T, 1600>,
    pub l5_x: Tensor1<T, 800>,
    pub l5_a: Tensor1<T, 800>,
    pub l6_x: Tensor1<T, 626>,
}

impl<T: Copy> Trace<T> {
    /// Every tensor holds as many elements as its shape says.
    pub open spec fn wf(&self) -> bool {
        &&& self.l1_x.wf() && self.l1_a.wf()
        &&& self.l2_x.wf() && self.l2_a.wf()
        &&& self.l3_x.wf() && self.l3_a.wf()
        &&& self.l4_x.wf() && self.l4_a.wf()
        &&& self.l5_x.wf() && self.l5_a.wf()
        &&& self.l6_x.wf()
    }
}

impl<T: Copy + Add<Output = T> + Sub<Output = T> + Mul<Output = T> + Default> Network<T> {
    /// `trace` holds the values of a forward pass of `input` through this
    /// network with the activation `f`: each layer's values are what the
    /// layer makes of the activated values of the layer before, the fourth
    /// layer's flattened.
    pub open spec fn traced<F: Fn(T) -> T>(
        &self,
        input: Tensor3<T, 5, 5, 8>,
        f: F,
        trace: Trace<T>,
    ) -> bool {
        &&& conv_layer(input, self.l1_kernels@, self.l1_biases@, trace.l1_x)
        &&& mapped(f, trace.l1_x@, trace.l1_a@)
        &&& conv_layer(trace.l1_a, self.l2_kernels@, self.l2_biases@, trace.l2_x)
        &&& mapped(f, trace.l2_x@, trace.l2_a@)
        &&& conv_layer(trace.l2_a, self.l3_kernels@, self.l3_biases@, trace.l3_x)
        &&& mapped(f, trace.l3_x@, trace.l3_a@)
        &&& conv_layer(trace.l3_a, self.l4_kernels@, self.l4_biases@, trace.l4_x)
        &&& mapped(f, trace.l4_x@, trace.l4_a@)
        &&& dense_layer(trace.l4_a, self.l5_weights@, self.l5_biases@, trace.l5_x)
        &&& mapped(f, trace.l5_x@, trace.l5_a@)
        &&& dense_layer(trace.l5_a, self.l6_weights@, self.l6_biases@, trace.l6_x)
    }

    /// The forward pass: four convolution layers and a fully connected
    /// layer, each followed by the activation, and a last fully connected
    /// layer.
    pub fn forward<F: Fn(T) -> T>(&self, input: &Tensor3<T, 5, 5, 8>, activation: &F) -> (r: Trace<
        T,
    >)
        requires
            total::<T>(),
            self.wf(),
            input.wf(),
            forall|x: T| #[trigger] call_requires(activation, (x,)),
        ensures
            r.wf(),
            self.traced(*input, *activation, r),
    {
        proof {
            Tensor3::<T, 5, 5, 64>::lemma_volume();
            assert forall|z: T| is_default(z) implies input.pass_ok(
                self.l1_kernels@,
                self.l1_biases@,
                z,
            ) by {
                input.lemma_total_pass(self.l1_kernels@, self.l1_biases@, z);
            }
        }
        let l1_x = input.convolution_pass(&self.l1_kernels, &self.l1_biases);
        let l1_a: Tensor3<T, 5, 5, 64> = Tensor3::from_parts(
            map_each(l1_x.get_data_ref(), activation),
        );
        proof {
            assert forall|z: T| is_default(z) implies l1_a.pass_ok(
                self.l2_kernels@,
                self.l2_biases@,
                z,
            ) by {
                l1_a.lemma_total_pass(self.l2_kernels@, self.l2_biases@, z);
            }
        }
        let l2_x = l1_a.convolution_pass(&self.l2_kernels, &self.l2_biases);
        let l2_a: Tensor3<T, 5, 5, 64> = Tensor3::from_parts(
            map_each(l2_x.get_data_ref(), activation),
        );
        proof {
            assert forall|z: T| is_default(z) implies l2_a.pass_ok(
                self.l3_kernels@,
                self.l3_biases@,
                z,
            ) by {
                l2_a.lemma_total_pass(self.l3_kernels@, self.l3_biases@, z);
            }
        }
        let l3_x = l2_a.convolution_pass(&self.l3_kernels, &self.l3_biases);
        let l3_a: Tensor3<T, 5, 5, 64> = Tensor3::from_parts(
            map_each(l3_x.get_data_ref(), activation),
        );
        proof {
            assert forall|z: T| is_default(z) implies l3_a.pass_ok(
                self.l4_kernels@,
                self.l4_biases@,
                z,
            ) by {
                l3_a.lemma_total_pass(self.l4_kernels@, self.l4_biases@, z);
            }
        }
        let l4_x = l3_a.convolution_pass(&self.l4_kernels, &self.l4_biases);
        let l4_a: Tensor1<T, 1600> = Tensor1::from_parts(map_each(l4_x.get_data_ref(), activation));
        proof {
            assert forall|z: T| is_default(z) implies l4_a.fully_connected_ok(
                self.l5_weights@,
                self.l5_biases@,
                z,
            ) by {
                assert forall|n: int| 0 <= n < self.l5_weights@.len() implies dense_ok(
                    l4_a@,
                    (#[trigger] self.l5_weights@[n])@,
                    self.l5_biases@[n],
                    z,
                ) by {
                    lemma_total_dot(z, l4_a@, self.l5_weights@[n]@, self.l5_weights@[n]@.len());
                }
            }
        }
        let l5_x: Tensor1<T, 800> = l4_a.fully_connected_pass(&self.l5_weights, &self.l5_biases);
        let l5_a: Tensor1<T, 800> = Tensor1::from_parts(map_each(l5_x.get_data_ref(), activation));
        proof {
            assert forall|z: T| is_default(z) implies l5_a.fully_connected_ok(
                self.l6_weights@,
                self.l6_biases@,
                z,
            ) by {
                assert forall|n: int| 0 <= n < self.l6_weights@.len() implies dense_ok(
                    l5_a@,
                    (#[trigger] self.l6_weights@[n])@,
                    self.l6_biases@[n],
                    z,
                ) by {
                    lemma_total_dot(z, l5_a@, self.l6_weights@[n]@, self.l6_weights@[n]@.len());
                }
            }
        }
        let l6_x: Tensor1<T, 626> = l5_a.fully_connected_pass(&self.l6_weights, &self.l6_biases);
        Trace { l1_x, l1_a, l2_x, l2_a, l3_x, l3_a, l4_x, l4_a, l5_x, l5_a, l6_x }
    }

    /// `trace` holds the values of a forward pass of `input` through this
    /// network with the activation `f`, where `convolve` convolves the
    /// planes of the convolution layers.
    pub open spec fn traced_by<
        F: Fn(T) -> T,
        C: Fn(Tensor2<T, 5, 5>, Tensor2<T, 3, 3>) -> Tensor2<T, 5, 5>,
    >(&self, input: Tensor3<T, 5, 5, 8>, f: F, convolve: C, trace: Trace<T>) -> bool {
        &&& input.passed_by(convolve, self.l1_kernels@, self.l1_biases@, trace.l1_x@)
        &&& mapped(f, trace.l1_x@, trace.l1_a@)
        &&& trace.l1_a.passed_by(convolve, self.l2_kernels@, self.l2_biases@, trace.l2_x@)
        &&& mapped(f, trace.l2_x@, trace.l2_a@)
        &&& trace.l2_a.passed_by(convolve, self.l3_kernels@, self.l3_biases@, trace.l3_x@)
        &&& mapped(f, trace.l3_x@, trace.l3_a@)
        &&& trace.l3_a.passed_by(convolve, self.l4_kernels@, self.l4_biases@, trace.l4_x@)
        &&& mapped(f, trace.l4_x@, trace.l4_a@)
        &&& dense_layer(trace.l4_a, self.l5_weights@, self.l5_biases@, trace.l5_x)
        &&& mapped(f, trace.l5_x@, trace.l5_a@)
        &&& dense_layer(trace.l5_a, self.l6_weights@, self.l6_biases@, trace.l6_x)
    }

    /// The forward pass with `convolve` to convolve a plane with a
    /// kernel's plane, as a faster way to the same planes may do: see
    /// `traced_by`.
    pub fn forward_by<
        F: Fn(T) -> T,
        C: Fn(Tensor2<T, 5, 5>, Tensor2<T, 3, 3>) -> Tensor2<T, 5, 5>,
    >(&self, input: &Tensor3<T, 5, 5, 8>, activation: &F, convolve: &C) -> (r: Trace<T>)
        requires
            total::<T>(),
            self.wf(),
            input.wf(),
            forall|x: T| #[trigger] call_requires(activation, (x,)),
            convolves(*convolve),
        ensures
            r.wf(),
            self.traced_by(*input, *activation, *convolve, r),
    {
        proof {
            Tensor3::<T, 5, 5, 64>::lemma_volume();
        }
        let l1_x = input.convolution_pass_by(&self.l1_kernels, &self.l1_biases, convolve);
        let l1_a: Tensor3<T, 5, 5, 64> = Tensor3::from_parts(
            map_each(l1_x.get_data_ref(), activation),
        );
        let l2_x = l1_a.convolution_pass_by(&self.l2_kernels, &self.l2_biases, convolve);
        let l2_a: Tensor3<T, 5, 5, 64> = Tensor3::from_parts(
            map_each(l2_x.get_data_ref(), activation),
        );
        let l3_x = l2_a.convolution_pass_by(&self.l3_kernels, &self.l3_biases, convolve);
        let l3_a: Tensor3<T, 5, 5, 64> = Tensor3::from_parts(
            map_each(l3_x.get_data_ref(), activation),
        );
        let l4_x = l3_a.convolution_pass_by(&self.l4_kernels, &self.l4_biases, convolve);
        let l4_a: Tensor1<T, 1600> = Tensor1::from_parts(map_each(l4_x.get_data_ref(), activation));
        proof {
            assert forall|z: T| is_default(z) implies l4_a.fully_connected_ok(
                self.l5_weights@,
                self.l5_biases@,
                z,
            ) by {
                assert forall|n: int| 0 <= n < self.l5_weights@.len() implies dense_ok(
                    l4_a@,
                    (#[trigger] self.l5_weights@[n])@,
                    self.l5_biases@[n],
                    z,
                ) by {
                    lemma_total_dot(z, l4_a@, self.l5_weights@[n]@, self.l5_weights@[n]@.len());
                }
            }
        }
        let l5_x: Tensor1<T, 800> = l4_a.fully_connected_pass(&self.l5_weights, &self.l5_biases);
        let l5_a: Tensor1<T, 800> = Tensor1::from_parts(map_each(l5_x.get_data_ref(), activation));
        proof {
            assert forall|z: T| is_default(z) implies l5_a.fully_connected_ok(
                self.l6_weights@,
                self.l6_biases@,
                z,
            ) by {
                assert forall|n: int| 0 <= n < self.l6_weights@.len() implies dense_ok(
                    l5_a@,
                    (#[trigger] self.l6_weights@[n])@,
                    self.l6_biases@[n],
                    z,
                ) by {
                    lemma_total_dot(z, l5_a@, self.l6_weights@[n]@, self.l6_weights@[n]@.len());
                }
            }
        }
        let l6_x: Tensor1<T, 626> = l5_a.fully_connected_pass(&self.l6_weights, &self.l6_biases);
        Trace { l1_x, l1_a, l2_x, l2_a, l3_x, l3_a, l4_x, l4_a, l5_x, l5_a, l6_x }
    }
}

/// The derivatives of the loss with respect to what each layer takes in:
/// the activated values of the layer before, and for the first layer the
/// network's input.
#[derive(Clone, Debug, PartialEq)]
pub struct Derivatives<T> {
    pub l5_a: Tensor1<T, 800>,
    pub l4_a: Tensor1<T, 1600>,
    pub l3_a: Tensor3<T, 5, 5, 64>,
    pub l2_a: Tensor3<T, 5, 5, 64>,
    pub l1_a: Tensor3<T, 5, 5, 64>,
    pub input: Tensor3<T, 5, 5, 8>,
}

impl<T: Copy + Add<Output = T> + Sub<Output = T> + Mul<Output = T> + Default> Network<T> {
    /// A gradient step took the network `self` to the network `after` and
    /// gave the derivatives `d`.
    ///
    /// The last layer was stepped with the derivatives of the outputs. Every
    /// layer before it was stepped with the derivatives that the layer after
    /// it gave, each times a result of `slope` on the value that the layer
    /// had at that place before its activation. Each layer's inputs are the
    /// activated values of the layer before in `trace`, and the first
    /// layer's the network's input.
    pub open spec fn stepped<G: Fn(T) -> T>(
        &self,
        after: &Self,
        input: Tensor3<T, 5, 5, 8>,
        trace: Trace<T>,
        output_derivatives: Seq<T>,
        slope: G,
        learning_rate: T,
        d: Derivatives<T>,
    ) -> bool {
        &&& dense_stepped(
            (self.l6_weights@, self.l6_biases@),
            (after.l6_weights@, after.l6_biases@),
            trace.l5_a@,
            output_derivatives,
            learning_rate,
            d.l5_a@,
        )
        &&& exists|s: Seq<T>| #[trigger]
            mapped(slope, trace.l5_x@, s) && dense_stepped(
                (self.l5_weights@, self.l5_biases@),
                (after.l5_weights@, after.l5_biases@),
                trace.l4_a@,
                multiplied(d.l5_a@, s),
                learning_rate,
                d.l4_a@,
            )
        &&& exists|s: Seq<T>| #[trigger]
            mapped(slope, trace.l4_x@, s) && conv_stepped(
                (self.l4_kernels@, self.l4_biases@),
                (after.l4_kernels@, after.l4_biases@),
                trace.l3_a@,
                multiplied(d.l4_a@, s),
                learning_rate,
                d.l3_a@,
            )
        &&& exists|s: Seq<T>| #[trigger]
            mapped(slope, trace.l3_x@, s) && conv_stepped(
                (self.l3_kernels@, self.l3_biases@),
                (after.l3_kernels@, after.l3_biases@),
                trace.l2_a@,
                multiplied(d.l3_a@, s),
                learning_rate,
                d.l2_a@,
            )
        &&& exists|s: Seq<T>| #[trigger]
            mapped(slope, trace.l2_x@, s) && conv_stepped(
                (self.l2_kernels@, self.l2_biases@),
                (after.l2_kernels@, after.l2_biases@),
                trace.l1_a@,
                multiplied(d.l2_a@, s),
                learning_rate,
                d.l1_a@,
            )
        &&& exists|s: Seq<T>| #[trigger]
            mapped(slope, trace.l1_x@, s) && conv_stepped(
                (self.l1_kernels@, self.l1_biases@),
                (after.l1_kernels@, after.l1_biases@),
                input@,
                multiplied(d.l1_a@, s),
                learning_rate,
                d.input@,
            )
    }

    /// The gradient step back through all layers, from the last to the
    /// first: see `stepped`.
    pub fn backward<G: Fn(T) -> T>(
        &mut self,
        input: &Tensor3<T, 5, 5, 8>,
        trace: &Trace<T>,
        output_derivatives: &Tensor1<T, 626>,
        slope: &G,
        learning_rate: T,
    ) -> (r: Derivatives<T>)
        requires
            total::<T>(),
            old(self).wf(),
            input.wf(),
            trace.wf(),
            output_derivatives.wf(),
            forall|x: T| #[trigger] call_requires(slope, (x,)),
        ensures
            final(self).wf(),
            old(self).stepped(
                final(self),
                *input,
                *trace,
                output_derivatives@,
                *slope,
                learning_rate,
                r,
            ),
    {
        proof {
            Tensor3::<T, 5, 5, 64>::lemma_volume();
            Tensor3::<T, 3, 3, 64>::lemma_volume();
            assert forall|z: T| is_default(z) implies dense_step_ok(
                self.l6_weights@,
                self.l6_biases@,
                trace.l5_a@,
                output_derivatives@,
                learning_rate,
                z,
            ) by {
                lemma_total_dense_step(
                    self.l6_weights@,
                    self.l6_biases@,
                    trace.l5_a@,
                    output_derivatives@,
                    learning_rate,
                    z,
                );
            }
        }
        let l5_a = bp_fully_connected(
            &mut self.l6_weights,
            &mut self.l6_biases,
            &trace.l5_a,
            output_derivatives,
            learning_rate,
        );
        let slopes_l5 = map_each(trace.l5_x.get_data_ref(), slope);
        let into_l5: Tensor1<T, 800> = Tensor1::from_parts(
            mul_each(l5_a.get_data_ref(), &slopes_l5),
        );
        proof {
            assert forall|z: T| is_default(z) implies dense_step_ok(
                self.l5_weights@,
                self.l5_biases@,
                trace.l4_a@,
                into_l5@,
                learning_rate,
                z,
            ) by {
                lemma_total_dense_step(
                    self.l5_weights@,
                    self.l5_biases@,
                    trace.l4_a@,
                    into_l5@,
                    learning_rate,
                    z,
                );
            }
        }
        let l4_a = bp_fully_connected(
            &mut self.l5_weights,
            &mut self.l5_biases,
            &trace.l4_a,
            &into_l5,
            learning_rate,
        );
        let slopes_l4 = map_each(trace.l4_x.get_data_ref(), slope);
        let into_l4: Tensor3<T, 5, 5, 64> = Tensor3::from_parts(
            mul_each(l4_a.get_data_ref(), &slopes_l4),
        );
        proof {
            assert forall|z: T| is_default(z) implies conv_step_ok(
                self.l4_kernels@,
                self.l4_biases@,
                trace.l3_a@,
                into_l4@,
                learning_rate,
                z,
            ) by {
                lemma_total_conv_step(
                    self.l4_kernels@,
                    self.l4_biases@,
                    trace.l3_a@,
                    into_l4@,
                    learning_rate,
                    z,
                );
            }
        }
        let l3_a = bp_convolution(
            &mut self.l4_kernels,
            &mut self.l4_biases,
            &trace.l3_a,
            &into_l4,
            learning_rate,
        );
        let slopes_l3 = map_each(trace.l3_x.get_data_ref(), slope);
        let into_l3: Tensor3<T, 5, 5, 64> = Tensor3::from_parts(
            mul_each(l3_a.get_data_ref(), &slopes_l3),
        );
        proof {
            assert forall|z: T| is_default(z) implies conv_step_ok(
                self.l3_kernels@,
                self.l3_biases@,
                trace.l2_a@,
                into_l3@,
                learning_rate,
                z,
            ) by {
                lemma_total_conv_step(
                    self.l3_kernels@,
                    self.l3_biases@,
                    trace.l2_a@,
                    into_l3@,
                    learning_rate,
                    z,
                );
            }
        }
        let l2_a = bp_convolution(
            &mut self.l3_kernels,
            &mut self.l3_biases,
            &trace.l2_a,
            &into_l3,
            learning_rate,
        );
        let slopes_l2 = map_each(trace.l2_x.get_data_ref(), slope);
        let into_l2: Tensor3<T, 5, 5, 64> = Tensor3::from_parts(
            mul_each(l2_a.get_data_ref(), &slopes_l2),
        );
        proof {
            assert forall|z: T| is_default(z) implies conv_step_ok(
                self.l2_kernels@,
                self.l2_biases@,
                trace.l1_a@,
                into_l2@,
                learning_rate,
                z,
            ) by {
                lemma_total_conv_step(
                    self.l2_kernels@,
                    self.l2_biases@,
                    trace.l1_a@,
                    into_l2@,
                    learning_rate,
                    z,
                );
            }
        }
        let l1_a = bp_convolution(
            &mut self.l2_kernels,
            &mut self.l2_biases,
            &trace.l1_a,
            &into_l2,
            learning_rate,
        );
        let slopes_l1 = map_each(trace.l1_x.get_data_ref(), slope);
        let into_l1: Tensor3<T, 5, 5, 64> = Tensor3::from_parts(
            mul_each(l1_a.get_data_ref(), &slopes_l1),
        );
        proof {
            Tensor3::<T, 3, 3, 8>::lemma_volume();
            assert forall|z: T| is_default(z) implies conv_step_ok(
                self.l1_kernels@,
                self.l1_biases@,
                input@,
                into_l1@,
                learning_rate,
                z,
            ) by {
                lemma_total_conv_step(
                    self.l1_kernels@,
                    self.l1_biases@,
                    input@,
                    into_l1@,
                    learning_rate,
                    z,
                );
            }
        }
        let back = bp_convolution(
            &mut self.l1_kernels,
            &mut self.l1_biases,
            input,
            &into_l1,
            learning_rate,
        );
        let derivatives = Derivatives { l5_a, l4_a, l3_a, l2_a, l1_a, input: back };
        proof {
            let before = *old(self);
            let after = *self;
            assert(dense_stepped(
                (before.l6_weights@, before.l6_biases@),
                (after.l6_weights@, after.l6_biases@),
                trace.l5_a@,
                output_derivatives@,
                learning_rate,
                derivatives.l5_a@,
            ));
            assert(mapped(*slope, trace.l5_x@, slopes_l5@) && into_l5@ == multiplied(
                derivatives.l5_a@,
                slopes_l5@,
            ) && dense_stepped(
                (before.l5_weights@, before.l5_biases@),
                (after.l5_weights@, after.l5_biases@),
                trace.l4_a@,
                into_l5@,
                learning_rate,
                derivatives.l4_a@,
            ));
            assert(mapped(*slope, trace.l4_x@, slopes_l4@) && into_l4@ == multiplied(
                derivatives.l4_a@,
                slopes_l4@,
            ) && conv_stepped(
                (before.l4_kernels@, before.l4_biases@),
                (after.l4_kernels@, after.l4_biases@),
                trace.l3_a@,
                into_l4@,
                learning_rate,
                derivatives.l3_a@,
            ));
            assert(mapped(*slope, trace.l3_x@, slopes_l3@) && into_l3@ == multiplied(
                derivatives.l3_a@,
                slopes_l3@,
            ) && conv_stepped(
                (before.l3_kernels@, before.l3_biases@),
                (after.l3_kernels@, after.l3_biases@),
                trace.l2_a@,
                into_l3@,
                learning_rate,
                derivatives.l2_a@,
            ));
            assert(mapped(*slope, trace.l2_x@, slopes_l2@) && into_l2@ == multiplied(
                derivatives.l2_a@,
                slopes_l2@,
            ) && conv_stepped(
                (before.l2_kernels@, before.l2_biases@),
                (after.l2_kernels@, after.l2_biases@),
                trace.l1_a@,
                into_l2@,
                learning_rate,
                derivatives.l1_a@,
            ));
            assert(mapped(*slope, trace.l1_x@, slopes_l1@) && into_l1@ == multiplied(
                derivatives.l1_a@,
                slopes_l1@,
            ) && conv_stepped(
                (before.l1_kernels@, before.l1_biases@),
                (after.l1_kernels@, after.l1_biases@),
                input@,
                into_l1@,
                learning_rate,
                derivatives.input@,
            ));
            assert(before.stepped(
                &after,
                *input,
                *trace,
                output_derivatives@,
                *slope,
                learning_rate,
                derivatives,
            ));
        }
        derivatives
    }
}

} // verus!
