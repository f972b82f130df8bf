//! Arithmetic that treats a tensor element by element.

use core::ops::Add;
use core::ops::Div;
use core::ops::Mul;
use core::ops::Sub;
use vstd::pervasive::unreached;
use vstd::prelude::*;
use vstd::std_specs::ops::AddSpec;
use vstd::std_specs::ops::AddSpecImpl;
use vstd::std_specs::ops::DivSpec;
use vstd::std_specs::ops::DivSpecImpl;
use vstd::std_specs::ops::MulSpec;
use vstd::std_specs::ops::MulSpecImpl;
use vstd::std_specs::ops::SubSpec;
use vstd::std_specs::ops::SubSpecImpl;
use crate::tensor::Tensor;
use crate::tensor::Tensor1;
use crate::tensor::Tensor2;
use crate::tensor::Tensor3;

verus! {

/// Each `a[i] + b[i]` is an addition that `T` allows.
pub open spec fn add_all_ok<T: Add<Output = T>>(a: Seq<T>, b: Seq<T>) -> bool {
    a.len() == b.len() && forall|i: int| 0 <= i < a.len() ==> #[trigger] a[i].add_req(b[i])
}

/// The sequence of the sums `a[i] + b[i]`.
pub open spec fn added<T: Add<Output = T>>(a: Seq<T>, b: Seq<T>) -> Seq<T> {
    Seq::new(a.len(), |i: int| a[i].add_spec(b[i]))
}

/// The sums `a[i] + b[i]` of two stores of one length.
pub fn add_each<T: Copy + Add<Output = T>>(a: &Vec<T>, b: &Vec<T>) -> (r: Vec<T>)
    requires
        T::obeys_add_spec(),
        add_all_ok(a@, b@),
    ensures
        r@ == added(a@, b@),
{
    let mut out: Vec<T> = Vec::new();
    let mut i: usize = 0;
    while i < a.len()
        invariant
            i <= a@.len(),
            T::obeys_add_spec(),
            add_all_ok(a@, b@),
            out@.len() == i,
            forall|j: int| 0 <= j < i ==> out@[j] == a@[j].add_spec(b@[j]),
        decreases a@.len() - i,
    {
        assert(a@[i as int].add_req(b@[i as int]));
        out.push(a[i] + b[i]);
        i += 1;
    }
    assert(out@ =~= added(a@, b@));
    out
}

/// Each `a[i] - b[i]` is a subtraction that `T` allows.
pub open spec fn sub_all_ok<T: Sub<Output = T>>(a: Seq<T>, b: Seq<T>) -> bool {
    a.len() == b.len() && forall|i: int| 0 <= i < a.len() ==> #[trigger] a[i].sub_req(b[i])
}

/// The sequence of the differences `a[i] - b[i]`.
pub open spec fn subtracted<T: Sub<Output = T>>(a: Seq<T>, b: Seq<T>) -> Seq<T> {
    Seq::new(a.len(), |i: int| a[i].sub_spec(b[i]))
}

/// The differences `a[i] - b[i]` of two stores of one length.
pub fn sub_each<T: Copy + Sub<Output = T>>(a: &Vec<T>, b: &Vec<T>) -> (r: Vec<T>)
    requires
        T::obeys_sub_spec(),
        sub_all_ok(a@, b@),
    ensures
        r@ == subtracted(a@, b@),
{
    let mut out: Vec<T> = Vec::new();
    let mut i: usize = 0;
    while i < a.len()
        invariant
            i <= a@.len(),
            T::obeys_sub_spec(),
            sub_all_ok(a@, b@),
            out@.len() == i,
            forall|j: int| 0 <= j < i ==> out@[j] == a@[j].sub_spec(b@[j]),
        decreases a@.len() - i,
    {
        assert(a@[i as int].sub_req(b@[i as int]));
        out.push(a[i] - b[i]);
        i += 1;
    }
    assert(out@ =~= subtracted(a@, b@));
    out
}

/// Each `a[i] * b[i]` is a multiplication that `T` allows.
pub open spec fn mul_all_ok<T: Mul<Output = T>>(a: Seq<T>, b: Seq<T>) -> bool {
    a.len() == b.len() && forall|i: int| 0 <= i < a.len() ==> #[trigger] a[i].mul_req(b[i])
}

/// The sequence of the products `a[i] * b[i]`.
pub open spec fn multiplied<T: Mul<Output = T>>(a: Seq<T>, b: Seq<T>) -> Seq<T> {
    Seq::new(a.len(), |i: int| a[i].mul_spec(b[i]))
}

/// The products `a[i] * b[i]` of two stores of one length.
pub fn mul_each<T: Copy + Mul<Output = T>>(a: &Vec<T>, b: &Vec<T>) -> (r: Vec<T>)
    requires
        T::obeys_mul_spec(),
        mul_all_ok(a@, b@),
    ensures
        r@ == multiplied(a@, b@),
{
    let mut out: Vec<T> = Vec::new();
    let mut i: usize = 0;
    while i < a.len()
        invariant
            i <= a@.len(),
            T::obeys_mul_spec(),
            mul_all_ok(a@, b@),
            out@.len() == i,
            forall|j: int| 0 <= j < i ==> out@[j] == a@[j].mul_spec(b@[j]),
        decreases a@.len() - i,
    {
        assert(a@[i as int].mul_req(b@[i as int]));
        out.push(a[i] * b[i]);
        i += 1;
    }
    assert(out@ =~= multiplied(a@, b@));
    out
}

/// Each `a[i] / b[i]` is a division that `T` allows.
pub open spec fn div_all_ok<T: Div<Output = T>>(a: Seq<T>, b: Seq<T>) -> bool {
    a.len() == b.len() && forall|i: int| 0 <= i < a.len() ==> #[trigger] a[i].div_req(b[i])
}

/// The sequence of the quotients `a[i] / b[i]`.
pub open spec fn divided<T: Div<Output = T>>(a: Seq<T>, b: Seq<T>) -> Seq<T> {
    Seq::new(a.len(), |i: int| a[i].div_spec(b[i]))
}

/// The quotients `a[i] / b[i]` of two stores of one length.
pub fn div_each<T: Copy + Div<Output = T>>(a: &Vec<T>, b: &Vec<T>) -> (r: Vec<T>)
    requires
        T::obeys_div_spec(),
        div_all_ok(a@, b@),
    ensures
        r@ == divided(a@, b@),
{
    let mut out: Vec<T> = Vec::new();
    let mut i: usize = 0;
    while i < a.len()
        invariant
            i <= a@.len(),
            T::obeys_div_spec(),
            div_all_ok(a@, b@),
            out@.len() == i,
            forall|j: int| 0 <= j < i ==> out@[j] == a@[j].div_spec(b@[j]),
        decreases a@.len() - i,
    {
        assert(a@[i as int].div_req(b@[i as int]));
        out.push(a[i] / b[i]);
        i += 1;
    }
    assert(out@ =~= divided(a@, b@));
    out
}

/// Each `a[i] * k` is a multiplication that `T` allows.
pub open spec fn scale_ok<T: Mul<Output = T>>(a: Seq<T>, k: T) -> bool {
    forall|i: int| 0 <= i < a.len() ==> #[trigger] a[i].mul_req(k)
}

/// The sequence of the products `a[i] * k`.
pub open spec fn scaled<T: Mul<Output = T>>(a: Seq<T>, k: T) -> Seq<T> {
    Seq::new(a.len(), |i: int| a[i].mul_spec(k))
}

/// The products `a[i] * k` of a store and a scalar.
pub fn scale_each<T: Copy + Mul<Output = T>>(a: &Vec<T>, k: T) -> (r: Vec<T>)
    requires
        T::obeys_mul_spec(),
        scale_ok(a@, k),
    ensures
        r@ == scaled(a@, k),
{
    let mut out: Vec<T> = Vec::new();
    let mut i: usize = 0;
    while i < a.len()
        invariant
            i <= a@.len(),
            T::obeys_mul_spec(),
            scale_ok(a@, k),
            out@.len() == i,
            forall|j: int| 0 <= j < i ==> out@[j] == a@[j].mul_spec(k),
        decreases a@.len() - i,
    {
        assert(a@[i as int].mul_req(k));
        out.push(a[i] * k);
        i += 1;
    }
    assert(out@ =~= scaled(a@, k));
    out
}

/// `after` holds, element by element, results of `f` on `before`.
pub open spec fn mapped<T, U, F: Fn(T) -> U>(f: F, before: Seq<T>, after: Seq<U>) -> bool {
    before.len() == after.len() && forall|i: int|
        0 <= i < before.len() ==> call_ensures(f, (before[i],), #[trigger] after[i])
}

/// The results of `f` on each element of a store, in order.
pub fn map_each<T: Copy, U, F: Fn(T) -> U>(a: &Vec<T>, f: &F) -> (r: Vec<U>)
    requires
        forall|i: int| 0 <= i < a@.len() ==> call_requires(f, (#[trigger] a@[i],)),
    ensures
        mapped(*f, a@, r@),
{
    let mut out: Vec<U> = Vec::new();
    let mut i: usize = 0;
    while i < a.len()
        invariant
            i <= a@.len(),
            forall|j: int| 0 <= j < a@.len() ==> call_requires(f, (#[trigger] a@[j],)),
            out@.len() == i,
            forall|j: int| 0 <= j < i ==> call_ensures(f, (a@[j],), #[trigger] out@[j]),
        decreases a@.len() - i,
    {
        out.push(f(a[i]));
        i += 1;
    }
    out
}

/// Scaling and mapping, the same for every rank.
pub trait ElementWiseTensor<T: Copy>: Tensor<T> {
    /// Multiplies every element by `scalar`.
    fn scale(self, scalar: T) -> (r: Self) where T: Mul<Output = T>
        requires
            self.wf(),
            T::obeys_mul_spec(),
            scale_ok(self@, scalar),
        ensures
            r.wf(),
            r@ == scaled(self@, scalar),
    {
        proof {
            self.lemma_wf();
        }
        let out = scale_each(self.get_data_ref(), scalar);
        match Self::new(out) {
            Ok(r) => r,
            Err(_) => unreached(),
        }
    }

    /// Puts the result of `f` in the place of every element.
    fn map<F: Fn(T) -> T>(self, f: F) -> (r: Self)
        requires
            self.wf(),
            forall|i: int| 0 <= i < self@.len() ==> call_requires(f, (#[trigger] self@[i],)),
        ensures
            r.wf(),
            mapped(f, self@, r@),
    {
        proof {
            self.lemma_wf();
        }
        let out = map_each(self.get_data_ref(), &f);
        match Self::new(out) {
            Ok(r) => {
                proof {
                    r.lemma_wf();
                }
                r
            },
            Err(_) => unreached(),
        }
    }
}

impl<T: Copy, const L: usize> ElementWiseTensor<T> for Tensor1<T, L> {

}

impl<T: Copy, const C: usize, const R: usize> ElementWiseTensor<T> for Tensor2<T, C, R> {

}

impl<T: Copy, const D1: usize, const D2: usize, const D3: usize> ElementWiseTensor<T> for Tensor3<
    T,
    D1,
    D2,
    D3,
> {

}

/// What `Add` asks of its operands: both well formed, and every pair of
/// elements allowed. The sum is stated over the elements, by `added`, in
/// the operator's own contract; as a value it is only chosen, so the
/// operator does not claim to return it.
impl<T: Copy + Add<Output = T>, const L: usize> AddSpecImpl for Tensor1<T, L> {
    open spec fn obeys_add_spec() -> bool {
        false
    }

    open spec fn add_req(self, rhs: Self) -> bool {
        self.wf() && rhs.wf() && T::obeys_add_spec() && add_all_ok(self@, rhs@)
    }

    open spec fn add_spec(self, rhs: Self) -> Self {
        choose|t: Self| t.wf() && t@ == added(self@, rhs@)
    }
}

impl<T: Copy + Add<Output = T>, const L: usize> Add for Tensor1<T, L> {
    type Output = Self;

    /// The sum, element by element.
    fn add(self, other: Self) -> (r: Self)
        ensures
            r.wf(),
            r@ == added(self@, other@),
    {
        let out = add_each(self.get_data_ref(), other.get_data_ref());
        Tensor1::from_parts(out)
    }
}

/// What `Sub` asks of its operands: both well formed, and every pair of
/// elements allowed. The difference is stated over the elements, by `subtracted`, in
/// the operator's own contract; as a value it is only chosen, so the
/// operator does not claim to return it.
impl<T: Copy + Sub<Output = T>, const L: usize> SubSpecImpl for Tensor1<T, L> {
    open spec fn obeys_sub_spec() -> bool {
        false
    }

    open spec fn sub_req(self, rhs: Self) -> bool {
        self.wf() && rhs.wf() && T::obeys_sub_spec() && sub_all_ok(self@, rhs@)
    }

    open spec fn sub_spec(self, rhs: Self) -> Self {
        choose|t: Self| t.wf() && t@ == subtracted(self@, rhs@)
    }
}

impl<T: Copy + Sub<Output = T>, const L: usize> Sub for Tensor1<T, L> {
    type Output = Self;

    /// The difference, element by element.
    fn sub(self, other: Self) -> (r: Self)
        ensures
            r.wf(),
            r@ == subtracted(self@, other@),
    {
        let out = sub_each(self.get_data_ref(), other.get_data_ref());
        Tensor1::from_parts(out)
    }
}

/// What `Mul` asks of its operands: both well formed, and every pair of
/// elements allowed. The product is stated over the elements, by `multiplied`, in
/// the operator's own contract; as a value it is only chosen, so the
/// operator does not claim to return it.
impl<T: Copy + Mul<Output = T>, const L: usize> MulSpecImpl for Tensor1<T, L> {
    open spec fn obeys_mul_spec() -> bool {
        false
    }

    open spec fn mul_req(self, rhs: Self) -> bool {
        self.wf() && rhs.wf() && T::obeys_mul_spec() && mul_all_ok(self@, rhs@)
    }

    open spec fn mul_spec(self, rhs: Self) -> Self {
        choose|t: Self| t.wf() && t@ == multiplied(self@, rhs@)
    }
}

impl<T: Copy + Mul<Output = T>, const L: usize> Mul for Tensor1<T, L> {
    type Output = Self;

    /// The product, element by element.
    fn mul(self, other: Self) -> (r: Self)
        ensures
            r.wf(),
            r@ == multiplied(self@, other@),
    {
        let out = mul_each(self.get_data_ref(), other.get_data_ref());
        Tensor1::from_parts(out)
    }
}

/// What `Div` asks of its operands: both well formed, and every pair of
/// elements allowed. The quotient is stated over the elements, by `divided`, in
/// the operator's own contract; as a value it is only chosen, so the
/// operator does not claim to return it.
impl<T: Copy + Div<Output = T>, const L: usize> DivSpecImpl for Tensor1<T, L> {
    open spec fn obeys_div_spec() -> bool {
        false
    }

    open spec fn div_req(self, rhs: Self) -> bool {
        self.wf() && rhs.wf() && T::obeys_div_spec() && div_all_ok(self@, rhs@)
    }

    open spec fn div_spec(self, rhs: Self) -> Self {
        choose|t: Self| t.wf() && t@ == divided(self@, rhs@)
    }
}

impl<T: Copy + Div<Output = T>, const L: usize> Div for Tensor1<T, L> {
    type Output = Self;

    /// The quotient, element by element.
    fn div(self, other: Self) -> (r: Self)
        ensures
            r.wf(),
            r@ == divided(self@, other@),
    {
        let out = div_each(self.get_data_ref(), other.get_data_ref());
        Tensor1::from_parts(out)
    }
}

impl<T: Copy, const L: usize> Tensor1<T, L> {
    /// Puts the sum with `other`, element by element, in this tensor's place.
    pub fn add_assign(&mut self, other: &Self) where T: Add<Output = T>
        requires
            old(self).wf(),
            other.wf(),
            T::obeys_add_spec(),
            add_all_ok(old(self)@, other@),
        ensures
            final(self).wf(),
            final(self)@ == added(old(self)@, other@),
    {
        let out = add_each(self.get_data_ref(), other.get_data_ref());
        *self = Tensor1::from_parts(out);
    }

    /// Puts the difference with `other`, element by element, in this tensor's place.
    pub fn sub_assign(&mut self, other: &Self) where T: Sub<Output = T>
        requires
            old(self).wf(),
            other.wf(),
            T::obeys_sub_spec(),
            sub_all_ok(old(self)@, other@),
        ensures
            final(self).wf(),
            final(self)@ == subtracted(old(self)@, other@),
    {
        let out = sub_each(self.get_data_ref(), other.get_data_ref());
        *self = Tensor1::from_parts(out);
    }

    /// Puts the product with `other`, element by element, in this tensor's place.
    pub fn mul_assign(&mut self, other: &Self) where T: Mul<Output = T>
        requires
            old(self).wf(),
            other.wf(),
            T::obeys_mul_spec(),
            mul_all_ok(old(self)@, other@),
        ensures
            final(self).wf(),
            final(self)@ == multiplied(old(self)@, other@),
    {
        let out = mul_each(self.get_data_ref(), other.get_data_ref());
        *self = Tensor1::from_parts(out);
    }

    /// Puts the quotient with `other`, element by element, in this tensor's place.
    pub fn div_assign(&mut self, other: &Self) where T: Div<Output = T>
        requires
            old(self).wf(),
            other.wf(),
            T::obeys_div_spec(),
            div_all_ok(old(self)@, other@),
        ensures
            final(self).wf(),
            final(self)@ == divided(old(self)@, other@),
    {
        let out = div_each(self.get_data_ref(), other.get_data_ref());
        *self = Tensor1::from_parts(out);
    }
}

/// What `Add` asks of its operands: both well formed, and every pair of
/// elements allowed. The sum is stated over the elements, by `added`, in
/// the operator's own contract; as a value it is only chosen, so the
/// operator does not claim to return it.
impl<T: Copy + Add<Output = T>, const C: usize, const R: usize> AddSpecImpl for Tensor2<T, C, R> {
    open spec fn obeys_add_spec() -> bool {
        false
    }

    open spec fn add_req(self, rhs: Self) -> bool {
        self.wf() && rhs.wf() && T::obeys_add_spec() && add_all_ok(self@, rhs@)
    }

    open spec fn add_spec(self, rhs: Self) -> Self {
        choose|t: Self| t.wf() && t@ == added(self@, rhs@)
    }
}

impl<T: Copy + Add<Output = T>, const C: usize, const R: usize> Add for Tensor2<T, C, R> {
    type Output = Self;

    /// The sum, element by element.
    fn add(self, other: Self) -> (r: Self)
        ensures
            r.wf(),
            r@ == added(self@, other@),
    {
        let out = add_each(self.get_data_ref(), other.get_data_ref());
        Tensor2::from_parts(out)
    }
}

/// What `Sub` asks of its operands: both well formed, and every pair of
/// elements allowed. The difference is stated over the elements, by `subtracted`, in
/// the operator's own contract; as a value it is only chosen, so the
/// operator does not claim to return it.
impl<T: Copy + Sub<Output = T>, const C: usize, const R: usize> SubSpecImpl for Tensor2<T, C, R> {
    open spec fn obeys_sub_spec() -> bool {
        false
    }

    open spec fn sub_req(self, rhs: Self) -> bool {
        self.wf() && rhs.wf() && T::obeys_sub_spec() && sub_all_ok(self@, rhs@)
    }

    open spec fn sub_spec(self, rhs: Self) -> Self {
        choose|t: Self| t.wf() && t@ == subtracted(self@, rhs@)
    }
}

impl<T: Copy + Sub<Output = T>, const C: usize, const R: usize> Sub for Tensor2<T, C, R> {
    type Output = Self;

    /// The difference, element by element.
    fn sub(self, other: Self) -> (r: Self)
        ensures
            r.wf(),
            r@ == subtracted(self@, other@),
    {
        let out = sub_each(self.get_data_ref(), other.get_data_ref());
        Tensor2::from_parts(out)
    }
}

/// What `Mul` asks of its operands: both well formed, and every pair of
/// elements allowed. The product is stated over the elements, by `multiplied`, in
/// the operator's own contract; as a value it is only chosen, so the
/// operator does not claim to return it.
impl<T: Copy + Mul<Output = T>, const C: usize, const R: usize> MulSpecImpl for Tensor2<T, C, R> {
    open spec fn obeys_mul_spec() -> bool {
        false
    }

    open spec fn mul_req(self, rhs: Self) -> bool {
        self.wf() && rhs.wf() && T::obeys_mul_spec() && mul_all_ok(self@, rhs@)
    }

    open spec fn mul_spec(self, rhs: Self) -> Self {
        choose|t: Self| t.wf() && t@ == multiplied(self@, rhs@)
    }
}

impl<T: Copy + Mul<Output = T>, const C: usize, const R: usize> Mul for Tensor2<T, C, R> {
    type Output = Self;

    /// The product, element by element.
    fn mul(self, other: Self) -> (r: Self)
        ensures
            r.wf(),
            r@ == multiplied(self@, other@),
    {
        let out = mul_each(self.get_data_ref(), other.get_data_ref());
        Tensor2::from_parts(out)
    }
}

/// What `Div` asks of its operands: both well formed, and every pair of
/// elements allowed. The quotient is stated over the elements, by `divided`, in
/// the operator's own contract; as a value it is only chosen, so the
/// operator does not claim to return it.
impl<T: Copy + Div<Output = T>, const C: usize, const R: usize> DivSpecImpl for Tensor2<T, C, R> {
    open spec fn obeys_div_spec() -> bool {
        false
    }

    open spec fn div_req(self, rhs: Self) -> bool {
        self.wf() && rhs.wf() && T::obeys_div_spec() && div_all_ok(self@, rhs@)
    }

    open spec fn div_spec(self, rhs: Self) -> Self {
        choose|t: Self| t.wf() && t@ == divided(self@, rhs@)
    }
}

impl<T: Copy + Div<Output = T>, const C: usize, const R: usize> Div for Tensor2<T, C, R> {
    type Output = Self;

    /// The quotient, element by element.
    fn div(self, other: Self) -> (r: Self)
        ensures
            r.wf(),
            r@ == divided(self@, other@),
    {
        let out = div_each(self.get_data_ref(), other.get_data_ref());
        Tensor2::from_parts(out)
    }
}

impl<T: Copy, const C: usize, const R: usize> Tensor2<T, C, R> {
    /// Puts the sum with `other`, element by element, in this tensor's place.
    pub fn add_assign(&mut self, other: &Self) where T: Add<Output = T>
        requires
            old(self).wf(),
            other.wf(),
            T::obeys_add_spec(),
            add_all_ok(old(self)@, other@),
        ensures
            final(self).wf(),
            final(self)@ == added(old(self)@, other@),
    {
        let out = add_each(self.get_data_ref(), other.get_data_ref());
        *self = Tensor2::from_parts(out);
    }

    /// Puts the difference with `other`, element by element, in this tensor's place.
    pub fn sub_assign(&mut self, other: &Self) where T: Sub<Output = T>
        requires
            old(self).wf(),
            other.wf(),
            T::obeys_sub_spec(),
            sub_all_ok(old(self)@, other@),
        ensures
            final(self).wf(),
            final(self)@ == subtracted(old(self)@, other@),
    {
        let out = sub_each(self.get_data_ref(), other.get_data_ref());
        *self = Tensor2::from_parts(out);
    }

    /// Puts the product with `other`, element by element, in this tensor's place.
    pub fn mul_assign(&mut self, other: &Self) where T: Mul<Output = T>
        requires
            old(self).wf(),
            other.wf(),
            T::obeys_mul_spec(),
            mul_all_ok(old(self)@, other@),
        ensures
            final(self).wf(),
            final(self)@ == multiplied(old(self)@, other@),
    {
        let out = mul_each(self.get_data_ref(), other.get_data_ref());
        *self = Tensor2::from_parts(out);
    }

    /// Puts the quotient with `other`, element by element, in this tensor's place.
    pub fn div_assign(&mut self, other: &Self) where T: Div<Output = T>
        requires
            old(self).wf(),
            other.wf(),
            T::obeys_div_spec(),
            div_all_ok(old(self)@, other@),
        ensures
            final(self).wf(),
            final(self)@ == divided(old(self)@, other@),
    {
        let out = div_each(self.get_data_ref(), other.get_data_ref());
        *self = Tensor2::from_parts(out);
    }
}

/// What `Add` asks of its operands: both well formed, and every pair of
/// elements allowed. The sum is stated over the elements, by `added`, in
/// the operator's own contract; as a value it is only chosen, so the
/// operator does not claim to return it.
impl<T: Copy + Add<Output = T>, const D1: usize, const D2: usize, const D3: usize> AddSpecImpl for Tensor3<T, D1, D2, D3> {
    open spec fn obeys_add_spec() -> bool {
        false
    }

    open spec fn add_req(self, rhs: Self) -> bool {
        self.wf() && rhs.wf() && T::obeys_add_spec() && add_all_ok(self@, rhs@)
    }

    open spec fn add_spec(self, rhs: Self) -> Self {
        choose|t: Self| t.wf() && t@ == added(self@, rhs@)
    }
}

impl<T: Copy + Add<Output = T>, const D1: usize, const D2: usize, const D3: usize> Add for Tensor3<T, D1, D2, D3> {
    type Output = Self;

    /// The sum, element by element.
    fn add(self, other: Self) -> (r: Self)
        ensures
            r.wf(),
            r@ == added(self@, other@),
    {
        let out = add_each(self.get_data_ref(), other.get_data_ref());
        Tensor3::from_parts(out)
    }
}

/// What `Sub` asks of its operands: both well formed, and every pair of
/// elements allowed. The difference is stated over the elements, by `subtracted`, in
/// the operator's own contract; as a value it is only chosen, so the
/// operator does not claim to return it.
impl<T: Copy + Sub<Output = T>, const D1: usize, const D2: usize, const D3: usize> SubSpecImpl for Tensor3<T, D1, D2, D3> {
    open spec fn obeys_sub_spec() -> bool {
        false
    }

    open spec fn sub_req(self, rhs: Self) -> bool {
        self.wf() && rhs.wf() && T::obeys_sub_spec() && sub_all_ok(self@, rhs@)
    }

    open spec fn sub_spec(self, rhs: Self) -> Self {
        choose|t: Self| t.wf() && t@ == subtracted(self@, rhs@)
    }
}

impl<T: Copy + Sub<Output = T>, const D1: usize, const D2: usize, const D3: usize> Sub for Tensor3<T, D1, D2, D3> {
    type Output = Self;

    /// The difference, element by element.
    fn sub(self, other: Self) -> (r: Self)
        ensures
            r.wf(),
            r@ == subtracted(self@, other@),
    {
        let out = sub_each(self.get_data_ref(), other.get_data_ref());
        Tensor3::from_parts(out)
    }
}

/// What `Mul` asks of its operands: both well formed, and every pair of
/// elements allowed. The product is stated over the elements, by `multiplied`, in
/// the operator's own contract; as a value it is only chosen, so the
/// operator does not claim to return it.
impl<T: Copy + Mul<Output = T>, const D1: usize, const D2: usize, const D3: usize> MulSpecImpl for Tensor3<T, D1, D2, D3> {
    open spec fn obeys_mul_spec() -> bool {
        false
    }

    open spec fn mul_req(self, rhs: Self) -> bool {
        self.wf() && rhs.wf() && T::obeys_mul_spec() && mul_all_ok(self@, rhs@)
    }

    open spec fn mul_spec(self, rhs: Self) -> Self {
        choose|t: Self| t.wf() && t@ == multiplied(self@, rhs@)
    }
}

impl<T: Copy + Mul<Output = T>, const D1: usize, const D2: usize, const D3: usize> Mul for Tensor3<T, D1, D2, D3> {
    type Output = Self;

    /// The product, element by element.
    fn mul(self, other: Self) -> (r: Self)
        ensures
            r.wf(),
            r@ == multiplied(self@, other@),
    {
        let out = mul_each(self.get_data_ref(), other.get_data_ref());
        Tensor3::from_parts(out)
    }
}

/// What `Div` asks of its operands: both well formed, and every pair of
/// elements allowed. The quotient is stated over the elements, by `divided`, in
/// the operator's own contract; as a value it is only chosen, so the
/// operator does not claim to return it.
impl<T: Copy + Div<Output = T>, const D1: usize, const D2: usize, const D3: usize> DivSpecImpl for Tensor3<T, D1, D2, D3> {
    open spec fn obeys_div_spec() -> bool {
        false
    }

    open spec fn div_req(self, rhs: Self) -> bool {
        self.wf() && rhs.wf() && T::obeys_div_spec() && div_all_ok(self@, rhs@)
    }

    open spec fn div_spec(self, rhs: Self) -> Self {
        choose|t: Self| t.wf() && t@ == divided(self@, rhs@)
    }
}

impl<T: Copy + Div<Output = T>, const D1: usize, const D2: usize, const D3: usize> Div for Tensor3<T, D1, D2, D3> {
    type Output = Self;

    /// The quotient, element by element.
    fn div(self, other: Self) -> (r: Self)
        ensures
            r.wf(),
            r@ == divided(self@, other@),
    {
        let out = div_each(self.get_data_ref(), other.get_data_ref());
        Tensor3::from_parts(out)
    }
}

impl<T: Copy, const D1: usize, const D2: usize, const D3: usize> Tensor3<T, D1, D2, D3> {
    /// Puts the sum with `other`, element by element, in this tensor's place.
    pub fn add_assign(&mut self, other: &Self) where T: Add<Output = T>
        requires
            old(self).wf(),
            other.wf(),
            T::obeys_add_spec(),
            add_all_ok(old(self)@, other@),
        ensures
            final(self).wf(),
            final(self)@ == added(old(self)@, other@),
    {
        let out = add_each(self.get_data_ref(), other.get_data_ref());
        *self = Tensor3::from_parts(out);
    }

    /// Puts the difference with `other`, element by element, in this tensor's place.
    pub fn sub_assign(&mut self, other: &Self) where T: Sub<Output = T>
        requires
            old(self).wf(),
            other.wf(),
            T::obeys_sub_spec(),
            sub_all_ok(old(self)@, other@),
        ensures
            final(self).wf(),
            final(self)@ == subtracted(old(self)@, other@),
    {
        let out = sub_each(self.get_data_ref(), other.get_data_ref());
        *self = Tensor3::from_parts(out);
    }

    /// Puts the product with `other`, element by element, in this tensor's place.
    pub fn mul_assign(&mut self, other: &Self) where T: Mul<Output = T>
        requires
            old(self).wf(),
            other.wf(),
            T::obeys_mul_spec(),
            mul_all_ok(old(self)@, other@),
        ensures
            final(self).wf(),
            final(self)@ == multiplied(old(self)@, other@),
    {
        let out = mul_each(self.get_data_ref(), other.get_data_ref());
        *self = Tensor3::from_parts(out);
    }

    /// Puts the quotient with `other`, element by element, in this tensor's place.
    pub fn div_assign(&mut self, other: &Self) where T: Div<Output = T>
        requires
            old(self).wf(),
            other.wf(),
            T::obeys_div_spec(),
            div_all_ok(old(self)@, other@),
        ensures
            final(self).wf(),
            final(self)@ == divided(old(self)@, other@),
    {
        let out = div_each(self.get_data_ref(), other.get_data_ref());
        *self = Tensor3::from_parts(out);
    }
}

/// Subtracting `y` again undoes every allowed addition of `y`.
pub open spec fn sub_undoes_add<T: Add<Output = T> + Sub<Output = T>>() -> bool {
    forall|x: T, y: T| #[trigger]
        x.add_req(y) ==> x.add_spec(y).sub_req(y) && x.add_spec(y).sub_spec(y) == x
}

/// For elements whose subtraction undoes their addition, `(a + b) - b` is
/// allowed wherever `a + b` is, and equals `a`.
pub proof fn lemma_add_then_sub<T: Add<Output = T> + Sub<Output = T>>(a: Seq<T>, b: Seq<T>)
    requires
        sub_undoes_add::<T>(),
        add_all_ok(a, b),
    ensures
        sub_all_ok(added(a, b), b),
        subtracted(added(a, b), b) == a,
{
    let s = added(a, b);
    assert forall|i: int| 0 <= i < a.len() implies #[trigger] s[i].sub_req(b[i]) && s[i].sub_spec(
        b[i],
    ) == a[i] by {
        assert(a[i].add_req(b[i]));
        assert(s[i] == a[i].add_spec(b[i]));
    }
    assert forall|i: int| 0 <= i < a.len() implies #[trigger] subtracted(s, b)[i] == a[i] by {
        assert(s[i].sub_req(b[i]));
    }
    assert(subtracted(s, b) =~= a);
}

/// Subtraction undoes addition for `i8`.
pub proof fn lemma_sub_undoes_add_i8()
    ensures
        sub_undoes_add::<i8>(),
{
}

/// Subtraction undoes addition for `i16`.
pub proof fn lemma_sub_undoes_add_i16()
    ensures
        sub_undoes_add::<i16>(),
{
}

/// Subtraction undoes addition for `i32`.
pub proof fn lemma_sub_undoes_add_i32()
    ensures
        sub_undoes_add::<i32>(),
{
}

/// Subtraction undoes addition for `i64`.
pub proof fn lemma_sub_undoes_add_i64()
    ensures
        sub_undoes_add::<i64>(),
{
}

/// Subtraction undoes addition for `i128`.
pub proof fn lemma_sub_undoes_add_i128()
    ensures
        sub_undoes_add::<i128>(),
{
}

/// Subtraction undoes addition for `isize`.
pub proof fn lemma_sub_undoes_add_isize()
    ensures
        sub_undoes_add::<isize>(),
{
}

/// Subtraction undoes addition for `u8`.
pub proof fn lemma_sub_undoes_add_u8()
    ensures
        sub_undoes_add::<u8>(),
{
}

/// Subtraction undoes addition for `u16`.
pub proof fn lemma_sub_undoes_add_u16()
    ensures
        sub_undoes_add::<u16>(),
{
}

/// Subtraction undoes addition for `u32`.
pub proof fn lemma_sub_undoes_add_u32()
    ensures
        sub_undoes_add::<u32>(),
{
}

/// Subtraction undoes addition for `u64`.
pub proof fn lemma_sub_undoes_add_u64()
    ensures
        sub_undoes_add::<u64>(),
{
}

/// Subtraction undoes addition for `u128`.
pub proof fn lemma_sub_undoes_add_u128()
    ensures
        sub_undoes_add::<u128>(),
{
}

/// Subtraction undoes addition for `usize`.
pub proof fn lemma_sub_undoes_add_usize()
    ensures
        sub_undoes_add::<usize>(),
{
}

} // verus!
