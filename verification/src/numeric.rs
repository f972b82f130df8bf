//! Folds over sequences of elements, stated through the operators'
//! specifications.

use core::ops::Add;
use core::ops::Mul;
use core::ops::Sub;
use vstd::prelude::*;
use vstd::std_specs::ops::AddSpec;
use vstd::std_specs::ops::MulSpec;
use vstd::std_specs::ops::SubSpec;

verus! {

/// `z` is a value that `T::default()` may return.
pub open spec fn is_default<T: Default>(z: T) -> bool {
    call_ensures(T::default, (), z)
}

/// `z + xs[0] + ... + xs[n - 1]`, added from the left.
pub open spec fn sum_prefix<T: Add<Output = T>>(z: T, xs: Seq<T>, n: nat) -> T
    decreases n,
{
    if n == 0 {
        z
    } else {
        sum_prefix(z, xs, (n - 1) as nat).add_spec(xs[n - 1])
    }
}

/// Every addition of `sum_prefix(z, xs, n)` is one that `T` allows.
pub open spec fn sum_prefix_ok<T: Add<Output = T>>(z: T, xs: Seq<T>, n: nat) -> bool
    decreases n,
{
    n == 0 || (sum_prefix_ok(z, xs, (n - 1) as nat) && sum_prefix(z, xs, (n - 1) as nat).add_req(
        xs[n - 1],
    ))
}

/// `z + xs[0] * ys[0] + ... + xs[n - 1] * ys[n - 1]`, added from the left.
pub open spec fn dot_prefix<T: Add<Output = T> + Mul<Output = T>>(
    z: T,
    xs: Seq<T>,
    ys: Seq<T>,
    n: nat,
) -> T
    decreases n,
{
    if n == 0 {
        z
    } else {
        dot_prefix(z, xs, ys, (n - 1) as nat).add_spec(xs[n - 1].mul_spec(ys[n - 1]))
    }
}

/// Every multiplication and addition of `dot_prefix(z, xs, ys, n)` is one
/// that `T` allows.
pub open spec fn dot_prefix_ok<T: Add<Output = T> + Mul<Output = T>>(
    z: T,
    xs: Seq<T>,
    ys: Seq<T>,
    n: nat,
) -> bool
    decreases n,
{
    n == 0 || (dot_prefix_ok(z, xs, ys, (n - 1) as nat) && xs[n - 1].mul_req(ys[n - 1])
        && dot_prefix(z, xs, ys, (n - 1) as nat).add_req(xs[n - 1].mul_spec(ys[n - 1])))
}

/// The sum of `xs` from `z`.
pub open spec fn sum_of<T: Add<Output = T>>(z: T, xs: Seq<T>) -> T {
    sum_prefix(z, xs, xs.len())
}

/// The dot product of `xs` and `ys` from `z`, over the length of `ys`.
pub open spec fn dot<T: Add<Output = T> + Mul<Output = T>>(z: T, xs: Seq<T>, ys: Seq<T>) -> T {
    dot_prefix(z, xs, ys, ys.len())
}

/// What an allowed sum allows of its step `k`.
pub proof fn lemma_sum_step<T: Add<Output = T>>(z: T, xs: Seq<T>, n: nat, k: nat)
    requires
        sum_prefix_ok(z, xs, n),
        k < n,
    ensures
        sum_prefix(z, xs, k).add_req(xs[k as int]),
        sum_prefix(z, xs, k + 1) == sum_prefix(z, xs, k).add_spec(xs[k as int]),
    decreases n,
{
    if k + 1 < n {
        lemma_sum_step(z, xs, (n - 1) as nat, k);
    }
}

/// A sum depends on no more than the values that it adds.
pub proof fn lemma_sum_prefix_same<T: Add<Output = T>>(z: T, xs: Seq<T>, ys: Seq<T>, n: nat)
    requires
        forall|k: int| 0 <= k < n ==> xs[k] == ys[k],
    ensures
        sum_prefix(z, xs, n) == sum_prefix(z, ys, n),
    decreases n,
{
    if n > 0 {
        lemma_sum_prefix_same(z, xs, ys, (n - 1) as nat);
    }
}

/// What an allowed dot product allows of its step `k`.
pub proof fn lemma_dot_step<T: Add<Output = T> + Mul<Output = T>>(
    z: T,
    xs: Seq<T>,
    ys: Seq<T>,
    n: nat,
    k: nat,
)
    requires
        dot_prefix_ok(z, xs, ys, n),
        k < n,
    ensures
        xs[k as int].mul_req(ys[k as int]),
        dot_prefix(z, xs, ys, k).add_req(xs[k as int].mul_spec(ys[k as int])),
        dot_prefix(z, xs, ys, k + 1) == dot_prefix(z, xs, ys, k).add_spec(
            xs[k as int].mul_spec(ys[k as int]),
        ),
    decreases n,
{
    if k + 1 < n {
        lemma_dot_step(z, xs, ys, (n - 1) as nat, k);
    }
}

/// The dot product of two stores from `zero`, over the length of `ys`.
pub fn dot_of<T: Copy + Add<Output = T> + Mul<Output = T>>(zero: T, xs: &Vec<T>, ys: &Vec<T>) -> (r:
    T)
    requires
        T::obeys_add_spec(),
        T::obeys_mul_spec(),
        ys@.len() <= xs@.len(),
        dot_prefix_ok(zero, xs@, ys@, ys@.len()),
    ensures
        r == dot(zero, xs@, ys@),
{
    let mut acc = zero;
    let mut i: usize = 0;
    while i < ys.len()
        invariant
            i <= ys@.len(),
            ys@.len() <= xs@.len(),
            T::obeys_add_spec(),
            T::obeys_mul_spec(),
            dot_prefix_ok(zero, xs@, ys@, ys@.len()),
            acc == dot_prefix(zero, xs@, ys@, i as nat),
        decreases ys@.len() - i,
    {
        proof {
            lemma_dot_step(zero, xs@, ys@, ys@.len(), i as nat);
        }
        acc = acc + xs[i] * ys[i];
        i += 1;
    }
    acc
}

/// Addition, subtraction and multiplication of `T` return what their
/// specifications say and allow every operand, as those of floating-point
/// numbers do.
pub open spec fn total<T: Add<Output = T> + Sub<Output = T> + Mul<Output = T>>() -> bool {
    &&& T::obeys_add_spec()
    &&& T::obeys_sub_spec()
    &&& T::obeys_mul_spec()
    &&& forall|a: T, b: T| #[trigger] a.add_req(b)
    &&& forall|a: T, b: T| #[trigger] a.sub_req(b)
    &&& forall|a: T, b: T| #[trigger] a.mul_req(b)
}

/// Where every operand is allowed, every dot product is.
pub proof fn lemma_total_dot<T: Add<Output = T> + Sub<Output = T> + Mul<Output = T>>(
    z: T,
    xs: Seq<T>,
    ys: Seq<T>,
    n: nat,
)
    requires
        total::<T>(),
    ensures
        dot_prefix_ok(z, xs, ys, n),
    decreases n,
{
    if n > 0 {
        lemma_total_dot(z, xs, ys, (n - 1) as nat);
    }
}

/// Where every operand is allowed, every sum is.
pub proof fn lemma_total_sum<T: Add<Output = T> + Sub<Output = T> + Mul<Output = T>>(
    z: T,
    xs: Seq<T>,
    n: nat,
)
    requires
        total::<T>(),
    ensures
        sum_prefix_ok(z, xs, n),
    decreases n,
{
    if n > 0 {
        lemma_total_sum(z, xs, (n - 1) as nat);
    }
}

} // verus!
