//! Tensors of rank one to three over a flat, first-axis-fastest store.

use core::ops::Add;
use vstd::pervasive::unreached;
use vstd::prelude::*;
use vstd::std_specs::ops::AddSpec;
use crate::numeric::is_default;
use crate::numeric::lemma_sum_step;
use crate::numeric::sum_of;
use crate::numeric::sum_prefix;
use crate::numeric::sum_prefix_ok;

verus! {

/// Why a tensor operation refused its arguments.
#[derive(Clone, Copy, Debug, PartialEq, Eq)]
pub enum TensorError {
    /// The element counts or the extents do not fit together.
    ShapeMismatch,
    /// A window reaches outside the tensor.
    OutOfBounds,
}

/// What the three ranks share: a shape with a fixed element count, and the
/// elements in storage order.
pub trait Tensor<T: Copy>: Sized + View<V = Seq<T>> {
    /// The number of elements of this shape.
    spec fn volume() -> nat;

    /// The store holds exactly `volume()` elements.
    spec fn wf(&self) -> bool;

    /// Being well formed is holding `volume()` elements.
    proof fn lemma_wf(&self)
        ensures
            self.wf() <==> self@.len() == Self::volume(),
    ;

    /// Takes `data` as the elements in storage order.
    fn new(data: Vec<T>) -> (r: Result<Self, TensorError>)
        ensures
            r is Ok <==> data@.len() == Self::volume(),
            r is Ok ==> r->Ok_0.wf() && r->Ok_0@ == data@,
            r is Err ==> r->Err_0 == TensorError::ShapeMismatch,
    ;

    /// Gives the elements up.
    fn get_data(self) -> (r: Vec<T>)
        ensures
            r@ == self@,
    ;

    /// The elements in storage order.
    fn get_data_ref(&self) -> (r: &Vec<T>)
        ensures
            r@ == self@,
    ;

    /// The element at position `n` of the store.
    fn nth(&self, n: usize) -> (r: T)
        requires
            n < self@.len(),
        ensures
            r == self@[n as int],
    ;

    /// Puts `value` at position `n` of the store.
    fn set_nth(&mut self, n: usize, value: T)
        requires
            n < old(self)@.len(),
        ensures
            final(self)@ == old(self)@.update(n as int, value),
            old(self).wf() ==> final(self).wf(),
    ;

    /// The sum of all elements, added from the left to a default value.
    fn sum(self) -> (r: T) where T: Add<Output = T> + Default
        requires
            T::obeys_add_spec(),
            forall|z: T| is_default(z) ==> sum_prefix_ok(z, self@, self@.len()),
        ensures
            exists|z: T| is_default(z) && r == sum_of(z, self@),
    {
        let zero = T::default();
        assert(is_default(zero));
        let data = self.get_data();
        let mut acc = zero;
        let mut i: usize = 0;
        while i < data.len()
            invariant
                i <= data@.len(),
                T::obeys_add_spec(),
                sum_prefix_ok(zero, data@, data@.len()),
                acc == sum_prefix(zero, data@, i as nat),
            decreases data@.len() - i,
        {
            proof {
                lemma_sum_step(zero, data@, data@.len(), i as nat);
            }
            acc = acc + data[i];
            i += 1;
        }
        acc
    }

    /// The same shape with the store in reverse order.
    fn rev(self) -> (r: Self)
        requires
            self.wf(),
        ensures
            r.wf(),
            r@ == self@.reverse(),
    {
        proof {
            self.lemma_wf();
        }
        let out = reverse_store(self.get_data_ref());
        match Self::new(out) {
            Ok(r) => r,
            Err(_) => unreached(),
        }
    }
}

/// `n` copies of `x`.
pub fn repeat<T: Copy>(x: T, n: usize) -> (v: Vec<T>)
    ensures
        v@.len() == n,
        forall|i: int| 0 <= i < n ==> v@[i] == x,
{
    let mut v: Vec<T> = Vec::new();
    let mut i: usize = 0;
    while i < n
        invariant
            i <= n,
            v@.len() == i,
            forall|j: int| 0 <= j < i ==> v@[j] == x,
        decreases n - i,
    {
        v.push(x);
        i += 1;
    }
    v
}

/// The results of `f` on the positions below `n`, in order.
pub fn array_init<T, F: Fn(usize) -> T>(n: usize, f: &F) -> (r: Vec<T>)
    requires
        forall|i: usize| i < n ==> #[trigger] call_requires(f, (i,)),
    ensures
        r@.len() == n,
        forall|i: int| 0 <= i < n ==> call_ensures(f, (i as usize,), #[trigger] r@[i]),
{
    let mut out: Vec<T> = Vec::new();
    let mut i: usize = 0;
    while i < n
        invariant
            i <= n,
            forall|j: usize| j < n ==> #[trigger] call_requires(f, (j,)),
            out@.len() == i,
            forall|j: int| 0 <= j < i ==> call_ensures(f, (j as usize,), #[trigger] out@[j]),
        decreases n - i,
    {
        out.push(f(i));
        i += 1;
    }
    out
}

/// The elements of `store` in reverse order.
pub fn reverse_store<T: Copy>(store: &Vec<T>) -> (r: Vec<T>)
    ensures
        r@ == store@.reverse(),
{
    let mut out: Vec<T> = Vec::new();
    let mut i: usize = store.len();
    while i > 0
        invariant
            i <= store@.len(),
            out@.len() == store@.len() - i,
            forall|j: int| 0 <= j < out@.len() ==> out@[j] == store@[store@.len() - 1 - j],
        decreases i,
    {
        i -= 1;
        out.push(store[i]);
    }
    assert(out@ =~= store@.reverse());
    out
}

/// The product of two extents, where it fits.
pub fn volume2(a: usize, b: usize) -> (r: Option<usize>)
    ensures
        r is Some <==> a * b <= usize::MAX,
        r is Some ==> r->Some_0 == a * b,
        a * b >= 0,
{
    assert(a * b >= 0) by (nonlinear_arith)
        requires
            a >= 0,
            b >= 0,
    ;
    a.checked_mul(b)
}

/// The product of three extents, where it fits.
pub fn volume3(a: usize, b: usize, c: usize) -> (r: Option<usize>)
    ensures
        r is Some <==> a * b * c <= usize::MAX,
        r is Some ==> r->Some_0 == a * b * c,
        a * b * c >= 0,
{
    assert(a * b >= 0 && a * b * c >= 0) by (nonlinear_arith)
        requires
            a >= 0,
            b >= 0,
            c >= 0,
    ;
    if c == 0 {
        assert(a * b * 0 == 0) by (nonlinear_arith);
        return Some(0);
    }
    match a.checked_mul(b) {
        Some(ab) => ab.checked_mul(c),
        None => {
            assert(a * b * c >= a * b) by (nonlinear_arith)
                requires
                    c >= 1,
                    a * b >= 0,
            ;
            None
        },
    }
}

/// A vector of `L` elements.
#[derive(Clone, Debug, PartialEq, Eq)]
pub struct Tensor1<T, const L: usize> {
    data: Vec<T>,
}

/// `C` columns by `R` rows, stored row after row.
#[derive(Clone, Debug, PartialEq, Eq)]
pub struct Tensor2<T, const C: usize, const R: usize> {
    data: Vec<T>,
}

/// Extents `D1`, `D2` and `D3`, stored with the first axis fastest.
#[derive(Clone, Debug, PartialEq, Eq)]
pub struct Tensor3<T, const D1: usize, const D2: usize, const D3: usize> {
    data: Vec<T>,
}

/// A tensor of rank one.
pub type Vector<T, const L: usize> = Tensor1<T, L>;

impl<T, const L: usize> View for Tensor1<T, L> {
    type V = Seq<T>;

    closed spec fn view(&self) -> Seq<T> {
        self.data@
    }
}

impl<T, const C: usize, const R: usize> View for Tensor2<T, C, R> {
    type V = Seq<T>;

    closed spec fn view(&self) -> Seq<T> {
        self.data@
    }
}

impl<T, const D1: usize, const D2: usize, const D3: usize> View for Tensor3<T, D1, D2, D3> {
    type V = Seq<T>;

    closed spec fn view(&self) -> Seq<T> {
        self.data@
    }
}

impl<T: Copy, const L: usize> Tensor<T> for Tensor1<T, L> {
    open spec fn volume() -> nat {
        L as nat
    }

    open spec fn wf(&self) -> bool {
        self@.len() == L
    }

    proof fn lemma_wf(&self) {
        assert(Self::volume() == L);
    }

    fn new(data: Vec<T>) -> (r: Result<Self, TensorError>) {
        assert(Self::volume() == L);
        if data.len() == L {
            Ok(Tensor1 { data })
        } else {
            Err(TensorError::ShapeMismatch)
        }
    }

    fn get_data(self) -> (r: Vec<T>) {
        self.data
    }

    fn get_data_ref(&self) -> (r: &Vec<T>) {
        &self.data
    }

    fn nth(&self, n: usize) -> (r: T) {
        self.data[n]
    }

    fn set_nth(&mut self, n: usize, value: T) {
        self.data[n] = value;
    }
}

impl<T: Copy, const C: usize, const R: usize> Tensor<T> for Tensor2<T, C, R> {
    open spec fn volume() -> nat {
        (C * R) as nat
    }

    open spec fn wf(&self) -> bool {
        self@.len() == C * R
    }

    proof fn lemma_wf(&self) {
        Tensor2::<T, C, R>::lemma_volume();
    }

    fn new(data: Vec<T>) -> (r: Result<Self, TensorError>) {
        proof {
            Tensor2::<T, C, R>::lemma_volume();
        }
        let len = data.len();
        match volume2(C, R) {
            Some(n) => {
                if len == n {
                    Ok(Tensor2 { data })
                } else {
                    Err(TensorError::ShapeMismatch)
                }
            },
            None => Err(TensorError::ShapeMismatch),
        }
    }

    fn get_data(self) -> (r: Vec<T>) {
        self.data
    }

    fn get_data_ref(&self) -> (r: &Vec<T>) {
        &self.data
    }

    fn nth(&self, n: usize) -> (r: T) {
        self.data[n]
    }

    fn set_nth(&mut self, n: usize, value: T) {
        proof {
            Tensor2::<T, C, R>::lemma_volume();
        }
        self.data[n] = value;
    }
}

impl<T: Copy, const D1: usize, const D2: usize, const D3: usize> Tensor<T> for Tensor3<
    T,
    D1,
    D2,
    D3,
> {
    open spec fn volume() -> nat {
        (D1 * D2 * D3) as nat
    }

    open spec fn wf(&self) -> bool {
        self@.len() == D1 * D2 * D3
    }

    proof fn lemma_wf(&self) {
        Tensor3::<T, D1, D2, D3>::lemma_volume();
    }

    fn new(data: Vec<T>) -> (r: Result<Self, TensorError>) {
        proof {
            Tensor3::<T, D1, D2, D3>::lemma_volume();
        }
        let len = data.len();
        match volume3(D1, D2, D3) {
            Some(n) => {
                if len == n {
                    Ok(Tensor3 { data })
                } else {
                    Err(TensorError::ShapeMismatch)
                }
            },
            None => Err(TensorError::ShapeMismatch),
        }
    }

    fn get_data(self) -> (r: Vec<T>) {
        self.data
    }

    fn get_data_ref(&self) -> (r: &Vec<T>) {
        &self.data
    }

    fn nth(&self, n: usize) -> (r: T) {
        self.data[n]
    }

    fn set_nth(&mut self, n: usize, value: T) {
        proof {
            Tensor3::<T, D1, D2, D3>::lemma_volume();
        }
        self.data[n] = value;
    }
}

impl<T: Copy, const L: usize> Tensor1<T, L> {
    /// The element at `i`, or `z` where `i` lies outside.
    pub open spec fn padded(&self, i: int, z: T) -> T {
        if 0 <= i < L {
            self@[i]
        } else {
            z
        }
    }

    /// Wraps a store of the right length.
    pub(crate) fn from_parts(data: Vec<T>) -> (r: Self)
        requires
            data@.len() == L,
        ensures
            r.wf(),
            r@ == data@,
    {
        Tensor1 { data }
    }

    /// The same store under another shape of the same element count.
    pub fn reshape<G: Tensor<T>>(self) -> (r: Result<G, TensorError>)
        requires
            self.wf(),
        ensures
            r is Ok <==> G::volume() == L,
            r is Ok ==> r->Ok_0.wf() && r->Ok_0@ == self@,
            r is Err ==> r->Err_0 == TensorError::ShapeMismatch,
    {
        G::new(self.data)
    }

    /// The extent.
    pub fn shape(&self) -> (r: usize)
        ensures
            r == L,
    {
        L
    }
}

impl<T: Copy, const C: usize, const R: usize> Tensor2<T, C, R> {
    /// The element count is the product of the extents.
    pub proof fn lemma_volume()
        ensures
            <Self as Tensor<T>>::volume() == C * R,
            C * R >= 0,
    {
        assert(C * R >= 0) by (nonlinear_arith)
            requires
                C >= 0,
                R >= 0,
        ;
    }

    /// The element in column `c` of row `r`.
    pub open spec fn at(&self, c: int, r: int) -> T {
        self@[r * C + c]
    }

    /// The element in column `c` of row `r`, or `z` where that lies outside.
    pub open spec fn padded(&self, c: int, r: int, z: T) -> T {
        if 0 <= c < C && 0 <= r < R {
            self.at(c, r)
        } else {
            z
        }
    }

    /// Wraps a store of the right length.
    pub(crate) fn from_parts(data: Vec<T>) -> (r: Self)
        requires
            data@.len() == C * R,
        ensures
            r.wf(),
            r@ == data@,
    {
        Tensor2 { data }
    }

    /// The same store under another shape of the same element count.
    pub fn reshape<G: Tensor<T>>(self) -> (r: Result<G, TensorError>)
        requires
            self.wf(),
        ensures
            r is Ok <==> G::volume() == C * R,
            r is Ok ==> r->Ok_0.wf() && r->Ok_0@ == self@,
            r is Err ==> r->Err_0 == TensorError::ShapeMismatch,
    {
        G::new(self.data)
    }

    /// The extents: columns, then rows.
    pub fn shape(&self) -> (r: (usize, usize))
        ensures
            r == (C, R),
    {
        (C, R)
    }
}

impl<T: Copy, const D1: usize, const D2: usize, const D3: usize> Tensor3<T, D1, D2, D3> {
    /// The element count is the product of the extents.
    pub proof fn lemma_volume()
        ensures
            <Self as Tensor<T>>::volume() == D1 * D2 * D3,
            D1 * D2 >= 0,
            D1 * D2 * D3 >= 0,
    {
        assert(D1 * D2 >= 0 && D1 * D2 * D3 >= 0) by (nonlinear_arith)
            requires
                D1 >= 0,
                D2 >= 0,
                D3 >= 0,
        ;
    }

    /// The element at `(d1, d2, d3)`.
    pub open spec fn at(&self, d1: int, d2: int, d3: int) -> T {
        self@[d1 + d2 * D1 + d3 * (D1 * D2)]
    }

    /// The element at `(d1, d2, d3)`, or `z` where that lies outside.
    pub open spec fn padded(&self, d1: int, d2: int, d3: int, z: T) -> T {
        if 0 <= d1 < D1 && 0 <= d2 < D2 && 0 <= d3 < D3 {
            self.at(d1, d2, d3)
        } else {
            z
        }
    }

    /// Wraps a store of the right length.
    pub(crate) fn from_parts(data: Vec<T>) -> (r: Self)
        requires
            data@.len() == D1 * D2 * D3,
        ensures
            r.wf(),
            r@ == data@,
    {
        Tensor3 { data }
    }

    /// The same store under another shape of the same element count.
    pub fn reshape<G: Tensor<T>>(self) -> (r: Result<G, TensorError>)
        requires
            self.wf(),
        ensures
            r is Ok <==> G::volume() == D1 * D2 * D3,
            r is Ok ==> r->Ok_0.wf() && r->Ok_0@ == self@,
            r is Err ==> r->Err_0 == TensorError::ShapeMismatch,
    {
        G::new(self.data)
    }

    /// The extents, first axis first.
    pub fn shape(&self) -> (r: (usize, usize, usize))
        ensures
            r == (D1, D2, D3),
    {
        (D1, D2, D3)
    }
}


impl<T: Copy + Default, const L: usize> Default for Tensor1<T, L> {
    /// Every element a default value.
    fn default() -> (r: Self)
        ensures
            r.wf(),
            exists|z: T| is_default(z) && forall|i: int| 0 <= i < L ==> r@[i] == z,
    {
        let zero = T::default();
        assert(is_default(zero));
        Tensor1 { data: repeat(zero, L) }
    }
}

impl<T: Copy + Default, const C: usize, const R: usize> Default for Tensor2<T, C, R> {
    /// Every element a default value, where the shape's element count fits
    /// a `usize`; no element at all where it does not.
    fn default() -> (r: Self)
        ensures
            C * R <= usize::MAX ==> r.wf(),
            exists|z: T| is_default(z) && forall|i: int| 0 <= i < r@.len() ==> r@[i] == z,
    {
        let zero = T::default();
        assert(is_default(zero));
        match volume2(C, R) {
            Some(n) => Tensor2 { data: repeat(zero, n) },
            None => Tensor2 { data: Vec::new() },
        }
    }
}

impl<T: Copy + Default, const D1: usize, const D2: usize, const D3: usize> Default for Tensor3<
    T,
    D1,
    D2,
    D3,
> {
    /// Every element a default value, where the shape's element count fits
    /// a `usize`; no element at all where it does not.
    fn default() -> (r: Self)
        ensures
            D1 * D2 * D3 <= usize::MAX ==> r.wf(),
            exists|z: T| is_default(z) && forall|i: int| 0 <= i < r@.len() ==> r@[i] == z,
    {
        let zero = T::default();
        assert(is_default(zero));
        match volume3(D1, D2, D3) {
            Some(n) => Tensor3 { data: repeat(zero, n) },
            None => Tensor3 { data: Vec::new() },
        }
    }
}

} // verus!
