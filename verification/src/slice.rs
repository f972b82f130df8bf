//! Windows onto a tensor: those that must lie inside it, and those that may
//! reach outside and read a default value there.

use vstd::prelude::*;
use crate::index::lemma_index2;
use crate::index::lemma_index3;
use crate::index::lemma_split2;
use crate::index::lemma_split3;
use crate::numeric::is_default;
use crate::tensor::volume2;
use crate::tensor::volume3;
use crate::tensor::Tensor;
use crate::tensor::Tensor1;
use crate::tensor::Tensor2;
use crate::tensor::Tensor3;
use crate::tensor::TensorError;

verus! {

/// The coordinate `i + plus - minus`, where it lies inside `0..extent`.
pub fn shifted(i: usize, plus: usize, minus: usize, extent: usize) -> (r: Option<usize>)
    ensures
        r is Some <==> 0 <= i + plus - minus < extent,
        r is Some ==> r->Some_0 == i + plus - minus,
{
    if minus > plus {
        let down: usize = minus - plus;
        if i >= down && i - down < extent {
            Some(i - down)
        } else {
            None
        }
    } else {
        let up: usize = plus - minus;
        if up < extent && i < extent - up {
            Some(i + up)
        } else {
            None
        }
    }
}

/// An offset as what to add and what to take away, one of them zero.
pub fn split_offset(offset: isize) -> (r: (usize, usize))
    ensures
        r.0 - r.1 == offset,
        r.0 == 0 || r.1 == 0,
{
    if offset >= 0 {
        (offset as usize, 0)
    } else {
        (0, (-(offset + 1)) as usize + 1)
    }
}

impl<T: Copy, const L: usize> Tensor1<T, L> {
    /// The `NEW_L` elements from `offset` on.
    pub fn slice<const NEW_L: usize>(&self, offset: usize) -> (r: Result<
        Tensor1<T, NEW_L>,
        TensorError,
    >)
        requires
            self.wf(),
        ensures
            r is Ok <==> offset + NEW_L <= L,
            r is Ok ==> r->Ok_0.wf() && forall|i: int|
                0 <= i < NEW_L ==> r->Ok_0@[i] == self@[offset + i],
            r is Err ==> r->Err_0 == TensorError::OutOfBounds,
    {
        if offset > L || NEW_L > L - offset {
            return Err(TensorError::OutOfBounds);
        }
        let src = self.get_data_ref();
        let mut data: Vec<T> = Vec::new();
        let mut i: usize = 0;
        while i < NEW_L
            invariant
                i <= NEW_L,
                offset + NEW_L <= L,
                src@ == self@,
                self@.len() == L,
                data@.len() == i,
                forall|j: int| 0 <= j < i ==> data@[j] == self@[offset + j],
            decreases NEW_L - i,
        {
            data.push(src[offset + i]);
            i += 1;
        }
        Ok(Tensor1::from_parts(data))
    }

    /// The `NEW_L` positions from `plus - minus` on, with `zero` wherever a
    /// position lies outside the tensor.
    pub fn window_from<const NEW_L: usize>(&self, plus: usize, minus: usize, zero: T) -> (r:
        Tensor1<T, NEW_L>)
        requires
            self.wf(),
        ensures
            r.wf(),
            forall|i: int| 0 <= i < NEW_L ==> r@[i] == self.padded(i + plus - minus, zero),
    {
        let src = self.get_data_ref();
        let mut data: Vec<T> = Vec::new();
        let mut i: usize = 0;
        while i < NEW_L
            invariant
                i <= NEW_L,
                src@ == self@,
                self@.len() == L,
                data@.len() == i,
                forall|j: int| 0 <= j < i ==> data@[j] == self.padded(j + plus - minus, zero),
            decreases NEW_L - i,
        {
            match shifted(i, plus, minus, L) {
                Some(at) => data.push(src[at]),
                None => data.push(zero),
            }
            i += 1;
        }
        Tensor1::from_parts(data)
    }

    /// The `NEW_L` positions from `offset` on, with a default value wherever
    /// a position lies outside the tensor.
    pub fn slice_with_pad<const NEW_L: usize>(&self, offset: isize) -> (r: Tensor1<
        T,
        NEW_L,
    >) where T: Default
        requires
            self.wf(),
        ensures
            r.wf(),
            exists|z: T|
                is_default(z) && forall|i: int|
                    0 <= i < NEW_L ==> r@[i] == self.padded(i + offset, z),
    {
        let zero = T::default();
        assert(is_default(zero));
        let (plus, minus) = split_offset(offset);
        self.window_from::<NEW_L>(plus, minus, zero)
    }
}

impl<T: Copy, const C: usize, const R: usize> Tensor2<T, C, R> {
    /// The window of `NEW_C` columns and `NEW_R` rows whose first element
    /// is at `(col_offset, row_offset)`.
    pub fn slice<const NEW_C: usize, const NEW_R: usize>(
        &self,
        col_offset: usize,
        row_offset: usize,
    ) -> (r: Result<Tensor2<T, NEW_C, NEW_R>, TensorError>)
        requires
            self.wf(),
        ensures
            r is Ok <==> col_offset + NEW_C <= C && row_offset + NEW_R <= R,
            r is Ok ==> r->Ok_0.wf() && forall|i: int|
                0 <= i < NEW_C * NEW_R ==> r->Ok_0@[i] == self.at(
                    i % (NEW_C as int) + col_offset,
                    i / (NEW_C as int) + row_offset,
                ),
            r is Err ==> r->Err_0 == TensorError::OutOfBounds,
    {
        if col_offset > C || NEW_C > C - col_offset || row_offset > R || NEW_R > R - row_offset {
            return Err(TensorError::OutOfBounds);
        }
        let whole: usize = self.get_data_ref().len();
        proof {
            Self::lemma_volume();
            assert(NEW_C * NEW_R <= C * R) by (nonlinear_arith)
                requires
                    0 <= NEW_C <= C,
                    0 <= NEW_R <= R,
            ;
        }
        let n: usize = match volume2(NEW_C, NEW_R) {
            Some(n) => n,
            None => unreached(),
        };
        let src = self.get_data_ref();
        let total: usize = src.len();
        let mut data: Vec<T> = Vec::new();
        let mut i: usize = 0;
        while i < n
            invariant
                i <= n,
                n == NEW_C * NEW_R,
                total == C * R,
                col_offset + NEW_C <= C,
                row_offset + NEW_R <= R,
                src@ == self@,
                self@.len() == C * R,
                data@.len() == i,
                forall|j: int|
                    0 <= j < i ==> data@[j] == self.at(
                        j % (NEW_C as int) + col_offset,
                        j / (NEW_C as int) + row_offset,
                    ),
            decreases n - i,
        {
            proof {
                lemma_split2(i as int, NEW_C as int, NEW_R as int);
                lemma_index2(
                    (i as int) % (NEW_C as int) + col_offset,
                    (i as int) / (NEW_C as int) + row_offset,
                    C as int,
                    R as int,
                );
            }
            let c: usize = i % NEW_C + col_offset;
            let r: usize = i / NEW_C + row_offset;
            data.push(src[r * C + c]);
            i += 1;
        }
        Ok(Tensor2::from_parts(data))
    }

    /// The window of `NEW_C` columns and `NEW_R` rows whose first element
    /// is at column `col.0 - col.1` of row `row.0 - row.1`, with `zero`
    /// wherever a position lies outside the tensor.
    pub fn window_from<const NEW_C: usize, const NEW_R: usize>(
        &self,
        col: (usize, usize),
        row: (usize, usize),
        zero: T,
    ) -> (r: Tensor2<T, NEW_C, NEW_R>)
        requires
            self.wf(),
            NEW_C * NEW_R <= usize::MAX,
        ensures
            r.wf(),
            forall|i: int|
                0 <= i < NEW_C * NEW_R ==> r@[i] == self.padded(
                    i % (NEW_C as int) + col.0 - col.1,
                    i / (NEW_C as int) + row.0 - row.1,
                    zero,
                ),
    {
        let n: usize = match volume2(NEW_C, NEW_R) {
            Some(n) => n,
            None => unreached(),
        };
        let src = self.get_data_ref();
        let total: usize = src.len();
        let mut data: Vec<T> = Vec::new();
        let mut i: usize = 0;
        while i < n
            invariant
                i <= n,
                n == NEW_C * NEW_R,
                total == C * R,
                src@ == self@,
                self@.len() == C * R,
                data@.len() == i,
                forall|j: int|
                    0 <= j < i ==> data@[j] == self.padded(
                        j % (NEW_C as int) + col.0 - col.1,
                        j / (NEW_C as int) + row.0 - row.1,
                        zero,
                    ),
            decreases n - i,
        {
            proof {
                lemma_split2(i as int, NEW_C as int, NEW_R as int);
            }
            let c = shifted(i % NEW_C, col.0, col.1, C);
            let r = shifted(i / NEW_C, row.0, row.1, R);
            match (c, r) {
                (Some(c), Some(r)) => {
                    proof {
                        lemma_index2(c as int, r as int, C as int, R as int);
                    }
                    data.push(src[r * C + c]);
                },
                _ => data.push(zero),
            }
            i += 1;
        }
        Tensor2::from_parts(data)
    }

    /// The window of `NEW_C` columns and `NEW_R` rows whose first element
    /// is at `(col_offset, row_offset)`, with a default value wherever a
    /// position lies outside the tensor.
    pub fn slice_with_pad<const NEW_C: usize, const NEW_R: usize>(
        &self,
        col_offset: isize,
        row_offset: isize,
    ) -> (r: Tensor2<T, NEW_C, NEW_R>) where T: Default
        requires
            self.wf(),
            NEW_C * NEW_R <= usize::MAX,
        ensures
            r.wf(),
            exists|z: T|
                is_default(z) && forall|i: int|
                    0 <= i < NEW_C * NEW_R ==> r@[i] == self.padded(
                        i % (NEW_C as int) + col_offset,
                        i / (NEW_C as int) + row_offset,
                        z,
                    ),
    {
        let zero = T::default();
        assert(is_default(zero));
        self.window_from::<NEW_C, NEW_R>(split_offset(col_offset), split_offset(row_offset), zero)
    }
}

impl<T: Copy, const D1: usize, const D2: usize, const D3: usize> Tensor3<T, D1, D2, D3> {
    /// The window of extents `NEW_D1`, `NEW_D2` and `NEW_D3` whose first
    /// element is at the three offsets.
    pub fn slice<const NEW_D1: usize, const NEW_D2: usize, const NEW_D3: usize>(
        &self,
        d1_offset: usize,
        d2_offset: usize,
        d3_offset: usize,
    ) -> (r: Result<Tensor3<T, NEW_D1, NEW_D2, NEW_D3>, TensorError>)
        requires
            self.wf(),
        ensures
            r is Ok <==> d1_offset + NEW_D1 <= D1 && d2_offset + NEW_D2 <= D2 && d3_offset
                + NEW_D3 <= D3,
            r is Ok ==> r->Ok_0.wf() && forall|i: int|
                0 <= i < NEW_D1 * NEW_D2 * NEW_D3 ==> r->Ok_0@[i] == self.at(
                    i % (NEW_D1 as int) + d1_offset,
                    (i / (NEW_D1 as int)) % (NEW_D2 as int) + d2_offset,
                    i / (NEW_D1 * NEW_D2) + d3_offset,
                ),
            r is Err ==> r->Err_0 == TensorError::OutOfBounds,
    {
        if d1_offset > D1 || NEW_D1 > D1 - d1_offset || d2_offset > D2 || NEW_D2 > D2 - d2_offset
            || d3_offset > D3 || NEW_D3 > D3 - d3_offset {
            return Err(TensorError::OutOfBounds);
        }
        let whole: usize = self.get_data_ref().len();
        proof {
            Self::lemma_volume();
            assert(NEW_D1 * NEW_D2 * NEW_D3 <= D1 * D2 * D3) by (nonlinear_arith)
                requires
                    0 <= NEW_D1 <= D1,
                    0 <= NEW_D2 <= D2,
                    0 <= NEW_D3 <= D3,
            ;
        }
        let n: usize = match volume3(NEW_D1, NEW_D2, NEW_D3) {
            Some(n) => n,
            None => unreached(),
        };
        let src = self.get_data_ref();
        let total: usize = src.len();
        let mut data: Vec<T> = Vec::new();
        let mut i: usize = 0;
        while i < n
            invariant
                i <= n,
                n == NEW_D1 * NEW_D2 * NEW_D3,
                total == D1 * D2 * D3,
                d1_offset + NEW_D1 <= D1,
                d2_offset + NEW_D2 <= D2,
                d3_offset + NEW_D3 <= D3,
                src@ == self@,
                self@.len() == D1 * D2 * D3,
                data@.len() == i,
                forall|j: int|
                    0 <= j < i ==> data@[j] == self.at(
                        j % (NEW_D1 as int) + d1_offset,
                        (j / (NEW_D1 as int)) % (NEW_D2 as int) + d2_offset,
                        j / (NEW_D1 * NEW_D2) + d3_offset,
                    ),
            decreases n - i,
        {
            proof {
                lemma_split3(i as int, NEW_D1 as int, NEW_D2 as int, NEW_D3 as int);
                assert(NEW_D1 * NEW_D2 <= n) by (nonlinear_arith)
                    requires
                        n == NEW_D1 * NEW_D2 * NEW_D3,
                        0 < NEW_D1 * NEW_D2,
                        0 <= (i as int) / (NEW_D1 * NEW_D2) < NEW_D3,
                ;
                lemma_index3(
                    (i as int) % (NEW_D1 as int) + d1_offset,
                    ((i as int) / (NEW_D1 as int)) % (NEW_D2 as int) + d2_offset,
                    (i as int) / (NEW_D1 * NEW_D2) + d3_offset,
                    D1 as int,
                    D2 as int,
                    D3 as int,
                );
            }
            let d1: usize = i % NEW_D1 + d1_offset;
            let d2: usize = (i / NEW_D1) % NEW_D2 + d2_offset;
            let d3: usize = i / (NEW_D1 * NEW_D2) + d3_offset;
            proof {
                assert(D1 * D2 <= D1 * D2 * D3 && d3 * (D1 * D2) <= D1 * D2 * D3 && d2 * D1 <= D1
                    * D2 * D3) by (nonlinear_arith)
                    requires
                        0 <= d2 < D2,
                        0 <= d3 < D3,
                        0 < D1,
                ;
            }
            data.push(src[d1 + d2 * D1 + d3 * (D1 * D2)]);
            i += 1;
        }
        Ok(Tensor3::from_parts(data))
    }

    /// The window of extents `NEW_D1`, `NEW_D2` and `NEW_D3` whose first
    /// element is at `(d1.0 - d1.1, d2.0 - d2.1, d3.0 - d3.1)`, with `zero`
    /// wherever a position lies outside the tensor.
    pub fn window_from<const NEW_D1: usize, const NEW_D2: usize, const NEW_D3: usize>(
        &self,
        d1: (usize, usize),
        d2: (usize, usize),
        d3: (usize, usize),
        zero: T,
    ) -> (r: Tensor3<T, NEW_D1, NEW_D2, NEW_D3>)
        requires
            self.wf(),
            NEW_D1 * NEW_D2 * NEW_D3 <= usize::MAX,
        ensures
            r.wf(),
            forall|i: int|
                0 <= i < NEW_D1 * NEW_D2 * NEW_D3 ==> r@[i] == self.padded(
                    i % (NEW_D1 as int) + d1.0 - d1.1,
                    (i / (NEW_D1 as int)) % (NEW_D2 as int) + d2.0 - d2.1,
                    i / (NEW_D1 * NEW_D2) + d3.0 - d3.1,
                    zero,
                ),
    {
        let n: usize = match volume3(NEW_D1, NEW_D2, NEW_D3) {
            Some(n) => n,
            None => unreached(),
        };
        let src = self.get_data_ref();
        let total: usize = src.len();
        let mut data: Vec<T> = Vec::new();
        let mut i: usize = 0;
        while i < n
            invariant
                i <= n,
                n == NEW_D1 * NEW_D2 * NEW_D3,
                total == D1 * D2 * D3,
                src@ == self@,
                self@.len() == D1 * D2 * D3,
                data@.len() == i,
                forall|j: int|
                    0 <= j < i ==> data@[j] == self.padded(
                        j % (NEW_D1 as int) + d1.0 - d1.1,
                        (j / (NEW_D1 as int)) % (NEW_D2 as int) + d2.0 - d2.1,
                        j / (NEW_D1 * NEW_D2) + d3.0 - d3.1,
                        zero,
                    ),
            decreases n - i,
        {
            proof {
                lemma_split3(i as int, NEW_D1 as int, NEW_D2 as int, NEW_D3 as int);
                assert(NEW_D1 * NEW_D2 <= n) by (nonlinear_arith)
                    requires
                        n == NEW_D1 * NEW_D2 * NEW_D3,
                        0 < NEW_D1 * NEW_D2,
                        0 <= (i as int) / (NEW_D1 * NEW_D2) < NEW_D3,
                ;
            }
            let a = shifted(i % NEW_D1, d1.0, d1.1, D1);
            let b = shifted((i / NEW_D1) % NEW_D2, d2.0, d2.1, D2);
            let c = shifted(i / (NEW_D1 * NEW_D2), d3.0, d3.1, D3);
            match (a, b, c) {
                (Some(a), Some(b), Some(c)) => {
                    proof {
                        lemma_index3(a as int, b as int, c as int, D1 as int, D2 as int, D3 as int);
                        assert(D1 * D2 <= D1 * D2 * D3 && c * (D1 * D2) <= D1 * D2 * D3 && b * D1
                            <= D1 * D2 * D3) by (nonlinear_arith)
                            requires
                                0 <= b < D2,
                                0 <= c < D3,
                                0 < D1,
                        ;
                    }
                    data.push(src[a + b * D1 + c * (D1 * D2)]);
                },
                _ => data.push(zero),
            }
            i += 1;
        }
        Tensor3::from_parts(data)
    }

    /// The window of extents `NEW_D1`, `NEW_D2` and `NEW_D3` whose first
    /// element is at the three offsets, with a default value wherever a
    /// position lies outside the tensor.
    pub fn slice_with_pad<const NEW_D1: usize, const NEW_D2: usize, const NEW_D3: usize>(
        &self,
        d1_offset: isize,
        d2_offset: isize,
        d3_offset: isize,
    ) -> (r: Tensor3<T, NEW_D1, NEW_D2, NEW_D3>) where T: Default
        requires
            self.wf(),
            NEW_D1 * NEW_D2 * NEW_D3 <= usize::MAX,
        ensures
            r.wf(),
            exists|z: T|
                is_default(z) && forall|i: int|
                    0 <= i < NEW_D1 * NEW_D2 * NEW_D3 ==> r@[i] == self.padded(
                        i % (NEW_D1 as int) + d1_offset,
                        (i / (NEW_D1 as int)) % (NEW_D2 as int) + d2_offset,
                        i / (NEW_D1 * NEW_D2) + d3_offset,
                        z,
                    ),
    {
        let zero = T::default();
        assert(is_default(zero));
        self.window_from::<NEW_D1, NEW_D2, NEW_D3>(
            split_offset(d1_offset),
            split_offset(d2_offset),
            split_offset(d3_offset),
            zero,
        )
    }
}

} // verus!
