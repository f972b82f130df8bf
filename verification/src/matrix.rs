//! Matrices addressed by row and column, over a rank-two tensor.

use core::ops::Add;
use core::ops::Div;
use core::ops::Mul;
use core::ops::Sub;
use vstd::pervasive::unreached;
use vstd::prelude::*;
use vstd::std_specs::ops::AddSpec;
use vstd::std_specs::ops::AddSpecImpl;
use vstd::std_specs::ops::DivSpec;
use vstd::std_specs::ops::DivSpecImpl;
use vstd::std_specs::ops::MulSpec;
use vstd::std_specs::ops::MulSpecImpl;
use vstd::std_specs::ops::SubSpec;
use vstd::std_specs::ops::SubSpecImpl;
use crate::elementwise::add_all_ok;
use crate::elementwise::add_each;
use crate::elementwise::added;
use crate::elementwise::sub_all_ok;
use crate::elementwise::sub_each;
use crate::elementwise::subtracted;
use crate::elementwise::mul_all_ok;
use crate::elementwise::mul_each;
use crate::elementwise::multiplied;
use crate::elementwise::div_all_ok;
use crate::elementwise::div_each;
use crate::elementwise::divided;
use crate::elementwise::scale_ok;
use crate::elementwise::scaled;
use crate::elementwise::ElementWiseTensor;
use crate::index::lemma_index2;
use crate::index::lemma_split2;
use crate::numeric::dot;
use crate::numeric::dot_prefix_ok;
use crate::numeric::is_default;
use crate::tensor::volume2;
use crate::tensor::Tensor;
use crate::tensor::Tensor2;
use crate::tensor::TensorError;

verus! {

/// `R` rows of `C` columns, stored row after row.
#[derive(Clone, Debug, PartialEq, Eq)]
pub struct Matrix<T, const R: usize, const C: usize> {
    cells: Tensor2<T, C, R>,
}

impl<T, const R: usize, const C: usize> View for Matrix<T, R, C> {
    type V = Seq<T>;

    closed spec fn view(&self) -> Seq<T> {
        self.cells@
    }
}

impl<T: Copy, const R: usize, const C: usize> Matrix<T, R, C> {
    /// The store holds exactly `R * C` elements.
    pub open spec fn wf(&self) -> bool {
        self@.len() == R * C
    }

    /// The element in row `r` and column `c`.
    pub open spec fn at(&self, r: int, c: int) -> T {
        self@[r * C + c]
    }

    /// The element in row `r` and column `c`, or `z` where that lies
    /// outside.
    pub open spec fn padded(&self, r: int, c: int, z: T) -> T {
        if 0 <= r < R && 0 <= c < C {
            self.at(r, c)
        } else {
            z
        }
    }

    /// Row `r`, from its first column to its last.
    pub open spec fn row(&self, r: int) -> Seq<T> {
        Seq::new(C as nat, |c: int| self.at(r, c))
    }

    /// Column `c`, from its first row to its last.
    pub open spec fn col(&self, c: int) -> Seq<T> {
        Seq::new(R as nat, |r: int| self.at(r, c))
    }

    /// A matrix is its tensor of `C` columns and `R` rows read by row and
    /// column.
    proof fn lemma_cells(&self)
        ensures
            self.wf() <==> self.cells.wf(),
            self@ == self.cells@,
            R * C == C * R,
            forall|r: int, c: int| self.at(r, c) == self.cells.at(c, r),
            forall|r: int, c: int, z: T| self.padded(r, c, z) == self.cells.padded(c, r, z),
    {
        assert(R * C == C * R) by (nonlinear_arith);
    }

    /// The matrix over `cells`.
    fn wrap(cells: Tensor2<T, C, R>) -> (r: Self)
        requires
            cells.wf(),
        ensures
            r.wf(),
            r@ == cells@,
    {
        let r = Matrix { cells };
        proof {
            r.lemma_cells();
        }
        r
    }

    /// The tensor under the matrix.
    fn cells(&self) -> (r: &Tensor2<T, C, R>)
        ensures
            r@ == self@,
            r.wf() <==> self.wf(),
            forall|r: int, c: int| self.at(r, c) == #[trigger] self.cells.at(c, r),
            forall|row: int, c: int, z: T|
                self.padded(row, c, z) == #[trigger] r.padded(c, row, z),
    {
        proof {
            self.lemma_cells();
        }
        &self.cells
    }

    /// The elements, row after row.
    pub fn get_data_ref(&self) -> (r: &Vec<T>)
        ensures
            r@ == self@,
    {
        self.cells.get_data_ref()
    }

    /// Takes `data` as the elements, row after row.
    pub fn new(data: Vec<T>) -> (r: Result<Self, TensorError>)
        ensures
            r is Ok <==> data@.len() == R * C,
            r is Ok ==> r->Ok_0.wf() && r->Ok_0@ == data@,
            r is Err ==> r->Err_0 == TensorError::ShapeMismatch,
    {
        proof {
            Tensor2::<T, C, R>::lemma_volume();
            assert(R * C == C * R) by (nonlinear_arith);
        }
        match Tensor2::<T, C, R>::new(data) {
            Ok(cells) => Ok(Self::wrap(cells)),
            Err(e) => Err(e),
        }
    }

    /// The same elements in the same order under another shape of the same
    /// element count.
    pub fn reshape<const NEW_R: usize, const NEW_C: usize>(self) -> (r: Result<
        Matrix<T, NEW_R, NEW_C>,
        TensorError,
    >)
        requires
            self.wf(),
        ensures
            r is Ok <==> NEW_R * NEW_C == R * C,
            r is Ok ==> r->Ok_0.wf() && r->Ok_0@ == self@,
            r is Err ==> r->Err_0 == TensorError::ShapeMismatch,
    {
        Matrix::<T, NEW_R, NEW_C>::new(self.cells.get_data())
    }

    /// Rows become columns.
    pub fn transpose(self) -> (r: Matrix<T, C, R>)
        requires
            self.wf(),
        ensures
            r.wf(),
            forall|i: int, j: int| 0 <= i < C && 0 <= j < R ==> r.at(i, j) == self.at(j, i),
    {
        let src = self.cells.get_data_ref();
        let n: usize = src.len();
        let mut data: Vec<T> = Vec::new();
        let mut i: usize = 0;
        proof {
            assert(R * C == C * R) by (nonlinear_arith);
        }
        while i < n
            invariant
                i <= n,
                n == C * R,
                src@ == self@,
                self@.len() == R * C,
                data@.len() == i,
                forall|j: int|
                    0 <= j < i ==> data@[j] == self@[(j % (R as int)) * C + j / (R as int)],
            decreases n - i,
        {
            proof {
                lemma_split2(i as int, R as int, C as int);
                lemma_index2((i as int) / (R as int), (i as int) % (R as int), C as int, R as int);
            }
            let r: usize = i % R;
            let c: usize = i / R;
            data.push(src[r * C + c]);
            i += 1;
        }
        let out = match Matrix::<T, C, R>::new(data) {
            Ok(out) => out,
            Err(_) => unreached(),
        };
        proof {
            assert forall|i: int, j: int| 0 <= i < C && 0 <= j < R implies out.at(i, j)
                == self.at(j, i) by {
                lemma_index2(j, i, R as int, C as int);
            }
        }
        out
    }

    /// Multiplies every element by `scalar`.
    pub fn scale(self, scalar: T) -> (r: Self) where T: Mul<Output = T>
        requires
            self.wf(),
            T::obeys_mul_spec(),
            scale_ok(self@, scalar),
        ensures
            r.wf(),
            r@ == scaled(self@, scalar),
    {
        proof {
            self.lemma_cells();
        }
        Self::wrap(self.cells.scale(scalar))
    }

    /// The window of `NEW_R` rows and `NEW_C` columns whose first element
    /// is at `(row_offset, col_offset)`.
    pub fn slice<const NEW_R: usize, const NEW_C: usize>(
        &self,
        row_offset: usize,
        col_offset: usize,
    ) -> (r: Result<Matrix<T, NEW_R, NEW_C>, TensorError>)
        requires
            self.wf(),
        ensures
            r is Ok <==> row_offset + NEW_R <= R && col_offset + NEW_C <= C,
            r is Ok ==> r->Ok_0.wf() && forall|i: int|
                0 <= i < NEW_R * NEW_C ==> r->Ok_0@[i] == self.at(
                    i / (NEW_C as int) + row_offset,
                    i % (NEW_C as int) + col_offset,
                ),
            r is Err ==> r->Err_0 == TensorError::OutOfBounds,
    {
        proof {
            assert(NEW_R * NEW_C == NEW_C * NEW_R) by (nonlinear_arith);
        }
        match self.cells().slice::<NEW_C, NEW_R>(col_offset, row_offset) {
            Ok(cells) => Ok(Matrix::wrap(cells)),
            Err(e) => Err(e),
        }
    }

    /// The window of `NEW_R` rows and `NEW_C` columns whose first element
    /// is at `(row_offset, col_offset)`, with a default value wherever a
    /// position lies outside the matrix.
    pub fn slice_with_pad<const NEW_R: usize, const NEW_C: usize>(
        &self,
        row_offset: isize,
        col_offset: isize,
    ) -> (r: Matrix<T, NEW_R, NEW_C>) where T: Default
        requires
            self.wf(),
            NEW_R * NEW_C <= usize::MAX,
        ensures
            r.wf(),
            exists|z: T|
                is_default(z) && forall|i: int|
                    0 <= i < NEW_R * NEW_C ==> r@[i] == self.padded(
                        i / (NEW_C as int) + row_offset,
                        i % (NEW_C as int) + col_offset,
                        z,
                    ),
    {
        proof {
            assert(NEW_R * NEW_C == NEW_C * NEW_R) by (nonlinear_arith);
        }
        let inner = self.cells();
        let cells = inner.slice_with_pad::<NEW_C, NEW_R>(col_offset, row_offset);
        proof {
            let z = choose|z: T|
                is_default(z) && forall|i: int|
                    0 <= i < NEW_C * NEW_R ==> cells@[i] == inner.padded(
                        i % (NEW_C as int) + col_offset,
                        i / (NEW_C as int) + row_offset,
                        z,
                    );
            assert forall|i: int| 0 <= i < NEW_R * NEW_C implies cells@[i] == self.padded(
                i / (NEW_C as int) + row_offset,
                i % (NEW_C as int) + col_offset,
                z,
            ) by {
                assert(cells@[i] == inner.padded(
                    i % (NEW_C as int) + col_offset,
                    i / (NEW_C as int) + row_offset,
                    z,
                ));
            }
        }
        Matrix::wrap(cells)
    }

    /// Row `i` as a store of its own.
    pub fn row_at(&self, i: usize) -> (r: Vec<T>)
        requires
            self.wf(),
            i < R,
        ensures
            r@ == self.row(i as int),
    {
        let src = self.cells.get_data_ref();
        let total: usize = src.len();
        let mut out: Vec<T> = Vec::new();
        let mut c: usize = 0;
        while c < C
            invariant
                c <= C,
                total == R * C,
                i < R,
                src@ == self@,
                self@.len() == R * C,
                out@.len() == c,
                forall|j: int| 0 <= j < c ==> out@[j] == self.at(i as int, j),
            decreases C - c,
        {
            proof {
                lemma_index2(c as int, i as int, C as int, R as int);
                assert(R * C == C * R) by (nonlinear_arith);
            }
            out.push(src[i * C + c]);
            c += 1;
        }
        assert(out@ =~= self.row(i as int));
        out
    }

    /// Column `j` as a store of its own.
    pub fn col_at(&self, j: usize) -> (r: Vec<T>)
        requires
            self.wf(),
            j < C,
        ensures
            r@ == self.col(j as int),
    {
        let src = self.cells.get_data_ref();
        let total: usize = src.len();
        let mut out: Vec<T> = Vec::new();
        let mut i: usize = 0;
        while i < R
            invariant
                i <= R,
                total == R * C,
                j < C,
                src@ == self@,
                self@.len() == R * C,
                out@.len() == i,
                forall|k: int| 0 <= k < i ==> out@[k] == self.at(k, j as int),
            decreases R - i,
        {
            proof {
                lemma_index2(j as int, i as int, C as int, R as int);
                assert(R * C == C * R) by (nonlinear_arith);
            }
            out.push(src[i * C + j]);
            i += 1;
        }
        assert(out@ =~= self.col(j as int));
        out
    }

    /// The rows, from the first on.
    pub fn rows(&self) -> (r: Rows<'_, T, R, C>)
        ensures
            r.source() == *self,
            r.position() == 0,
    {
        Rows { matrix: self, row: 0 }
    }

    /// The columns, from the first on.
    pub fn cols(&self) -> (r: Cols<'_, T, R, C>)
        ensures
            r.source() == *self,
            r.position() == 0,
    {
        Cols { matrix: self, col: 0 }
    }

    /// Every product and sum of the product with `other`, from `z`, is one
    /// that `T` allows.
    pub open spec fn matmul_ok<const K: usize>(&self, other: &Matrix<T, C, K>, z: T) -> bool where
        T: Add<Output = T> + Mul<Output = T>,
     {
        forall|i: int, j: int|
            0 <= i < R && 0 <= j < K ==> dot_prefix_ok(
                z,
                #[trigger] self.row(i),
                #[trigger] other.col(j),
                C as nat,
            )
    }

    /// The product with `other`: each element is the dot product, from a
    /// default value, of a row of this matrix and a column of `other`.
    pub fn matmul<const K: usize>(&self, other: &Matrix<T, C, K>) -> (r: Matrix<T, R, K>) where
        T: Add<Output = T> + Mul<Output = T> + Default,

        requires
            self.wf(),
            other.wf(),
            T::obeys_add_spec(),
            T::obeys_mul_spec(),
            R * K <= usize::MAX,
            forall|z: T| is_default(z) ==> self.matmul_ok(other, z),
        ensures
            r.wf(),
            exists|z: T|
                is_default(z) && forall|i: int, j: int|
                    0 <= i < R && 0 <= j < K ==> r.at(i, j) == dot(z, self.row(i), other.col(j)),
    {
        let zero = T::default();
        assert(is_default(zero));
        let mut data: Vec<T> = Vec::new();
        let mut i: usize = 0;
        while i < R
            invariant
                i <= R,
                self.wf(),
                other.wf(),
                T::obeys_add_spec(),
                T::obeys_mul_spec(),
                R * K <= usize::MAX,
                self.matmul_ok(other, zero),
                data@.len() == i * K,
                forall|p: int|
                    0 <= p < data@.len() ==> data@[p] == dot(
                        zero,
                        self.row(p / (K as int)),
                        other.col(p % (K as int)),
                    ),
            decreases R - i,
        {
            let row = self.row_at(i);
            let mut j: usize = 0;
            while j < K
                invariant
                    j <= K,
                    i < R,
                    self.wf(),
                    other.wf(),
                    T::obeys_add_spec(),
                    T::obeys_mul_spec(),
                    R * K <= usize::MAX,
                    self.matmul_ok(other, zero),
                    row@ == self.row(i as int),
                    data@.len() == i * K + j,
                    forall|p: int|
                        0 <= p < data@.len() ==> data@[p] == dot(
                            zero,
                            self.row(p / (K as int)),
                            other.col(p % (K as int)),
                        ),
                decreases K - j,
            {
                let col = other.col_at(j);
                proof {
                    assert(dot_prefix_ok(
                        zero,
                        self.row(i as int),
                        other.col(j as int),
                        C as nat,
                    ));
                    lemma_index2(j as int, i as int, K as int, R as int);
                }
                let cell = crate::numeric::dot_of(zero, &row, &col);
                data.push(cell);
                j += 1;
            }
            proof {
                assert((i + 1) * K == i * K + K) by (nonlinear_arith);
            }
            i += 1;
        }
        let out = match Matrix::<T, R, K>::new(data) {
            Ok(out) => out,
            Err(_) => unreached(),
        };
        proof {
            assert forall|i: int, j: int| 0 <= i < R && 0 <= j < K implies out.at(i, j) == dot(
                zero,
                self.row(i),
                other.col(j),
            ) by {
                lemma_index2(j, i, K as int, R as int);
                assert(K * R == R * K) by (nonlinear_arith);
            }
        }
        out
    }

    /// The square matrix with `one` on the diagonal and `zero` elsewhere.
    pub fn identity(zero: T, one: T) -> (r: Self)
        requires
            R == C,
            R * C <= usize::MAX,
        ensures
            r.wf(),
            forall|i: int, j: int|
                0 <= i < R && 0 <= j < C ==> r.at(i, j) == (if i == j {
                    one
                } else {
                    zero
                }),
    {
        let n: usize = match volume2(R, C) {
            Some(n) => n,
            None => unreached(),
        };
        let mut data: Vec<T> = Vec::new();
        let mut i: usize = 0;
        while i < n
            invariant
                i <= n,
                n == R * C,
                R == C,
                data@.len() == i,
                forall|k: int|
                    0 <= k < i ==> data@[k] == (if k / (C as int) == k % (C as int) {
                        one
                    } else {
                        zero
                    }),
            decreases n - i,
        {
            proof {
                assert(R * C == C * R) by (nonlinear_arith);
                lemma_split2(i as int, C as int, R as int);
            }
            if i / C == i % C {
                data.push(one);
            } else {
                data.push(zero);
            }
            i += 1;
        }
        let out = match Self::new(data) {
            Ok(out) => out,
            Err(_) => unreached(),
        };
        proof {
            assert forall|i: int, j: int| 0 <= i < R && 0 <= j < C implies out.at(i, j) == (if i
                == j {
                one
            } else {
                zero
            }) by {
                lemma_index2(j, i, C as int, R as int);
            }
        }
        out
    }
}

impl<T: Copy + Add<Output = T> + Mul<Output = T>, const R: usize, const C: usize> Matrix<T, R, C> {
    /// The input values that the kernel's elements meet for output `o` of
    /// `out_c` columns, where the first element of a kernel of `kern_c`
    /// columns lies `(base_r, base_c)` from that output.
    pub open spec fn taps(
        &self,
        o: int,
        out_c: int,
        kern_c: int,
        klen: nat,
        base_r: int,
        base_c: int,
        z: T,
    ) -> Seq<T> {
        Seq::new(
            klen,
            |k: int| self.padded(o / out_c + k / kern_c + base_r, o % out_c + k % kern_c + base_c, z),
        )
    }

    /// Output `o` of a convolution: from `z`, the products of the kernel's
    /// elements with the input values they meet.
    pub open spec fn conv_at(
        &self,
        kernel: Seq<T>,
        out_c: int,
        kern_c: int,
        base_r: int,
        base_c: int,
        z: T,
        o: int,
    ) -> T {
        dot(z, self.taps(o, out_c, kern_c, kernel.len(), base_r, base_c, z), kernel)
    }

    /// Every product and sum of each of the first `outputs` outputs is one
    /// that `T` allows.
    pub open spec fn conv_ok(
        &self,
        kernel: Seq<T>,
        out_c: int,
        kern_c: int,
        base_r: int,
        base_c: int,
        z: T,
        outputs: nat,
    ) -> bool {
        forall|o: int|
            0 <= o < outputs ==> dot_prefix_ok(
                z,
                #[trigger] self.taps(o, out_c, kern_c, kernel.len(), base_r, base_c, z),
                kernel,
                kernel.len(),
            )
    }

    /// The matrix's taps are its tensor's, rows and columns exchanged.
    proof fn lemma_taps(
        &self,
        o: int,
        out_c: int,
        kern_c: int,
        klen: nat,
        base_r: int,
        base_c: int,
        z: T,
    )
        ensures
            self.taps(o, out_c, kern_c, klen, base_r, base_c, z) == self.cells.taps(
                o,
                out_c,
                kern_c,
                klen,
                base_c,
                base_r,
                z,
            ),
    {
        self.lemma_cells();
        assert(self.taps(o, out_c, kern_c, klen, base_r, base_c, z) =~= self.cells.taps(
            o,
            out_c,
            kern_c,
            klen,
            base_c,
            base_r,
            z,
        ));
    }

    /// The matrix's convolution is its tensor's, rows and columns
    /// exchanged.
    proof fn lemma_conv(
        &self,
        kernel: Seq<T>,
        out_c: int,
        kern_c: int,
        base_r: int,
        base_c: int,
        z: T,
        outputs: nat,
    )
        ensures
            self.conv_ok(kernel, out_c, kern_c, base_r, base_c, z, outputs) ==> self.cells.conv_ok(
                kernel,
                out_c,
                kern_c,
                base_c,
                base_r,
                z,
                outputs,
            ),
            forall|o: int|
                self.conv_at(kernel, out_c, kern_c, base_r, base_c, z, o)
                    == #[trigger] self.cells.conv_at(kernel, out_c, kern_c, base_c, base_r, z, o),
    {
        assert forall|o: int|
            self.conv_at(kernel, out_c, kern_c, base_r, base_c, z, o)
                == #[trigger] self.cells.conv_at(kernel, out_c, kern_c, base_c, base_r, z, o) by {
            self.lemma_taps(o, out_c, kern_c, kernel.len(), base_r, base_c, z);
        }
        if self.conv_ok(kernel, out_c, kern_c, base_r, base_c, z, outputs) {
            assert forall|o: int| 0 <= o < outputs implies dot_prefix_ok(
                z,
                #[trigger] self.cells.taps(o, out_c, kern_c, kernel.len(), base_c, base_r, z),
                kernel,
                kernel.len(),
            ) by {
                self.lemma_taps(o, out_c, kern_c, kernel.len(), base_r, base_c, z);
                assert(dot_prefix_ok(
                    z,
                    self.taps(o, out_c, kern_c, kernel.len(), base_r, base_c, z),
                    kernel,
                    kernel.len(),
                ));
            }
        }
    }

    /// The convolution over every position where the kernel lies inside
    /// the matrix: `R + 1 - KERN_R` rows of `C + 1 - KERN_C` columns.
    pub fn convolve<
        const KERN_R: usize,
        const KERN_C: usize,
        const OUT_R: usize,
        const OUT_C: usize,
    >(&self, kernel: &Matrix<T, KERN_R, KERN_C>) -> (r: Result<
        Matrix<T, OUT_R, OUT_C>,
        TensorError,
    >) where T: Default
        requires
            self.wf(),
            kernel.wf(),
            T::obeys_add_spec(),
            T::obeys_mul_spec(),
            OUT_R + KERN_R == R + 1 && OUT_C + KERN_C == C + 1 && OUT_R * OUT_C <= usize::MAX
                ==> forall|z: T|
                is_default(z) ==> self.conv_ok(
                    kernel@,
                    OUT_C as int,
                    KERN_C as int,
                    0,
                    0,
                    z,
                    (OUT_R * OUT_C) as nat,
                ),
        ensures
            r is Ok <==> OUT_R + KERN_R == R + 1 && OUT_C + KERN_C == C + 1 && OUT_R * OUT_C
                <= usize::MAX,
            r is Ok ==> r->Ok_0.wf() && exists|z: T|
                is_default(z) && forall|o: int|
                    0 <= o < OUT_R * OUT_C ==> r->Ok_0@[o] == self.conv_at(
                        kernel@,
                        OUT_C as int,
                        KERN_C as int,
                        0,
                        0,
                        z,
                        o,
                    ),
            r is Err ==> r->Err_0 == TensorError::ShapeMismatch,
    {
        proof {
            assert(OUT_R * OUT_C == OUT_C * OUT_R) by (nonlinear_arith);
            self.lemma_cells();
            kernel.lemma_cells();
            assert forall|z: T| is_default(z) && self.conv_ok(
                kernel@,
                OUT_C as int,
                KERN_C as int,
                0,
                0,
                z,
                (OUT_R * OUT_C) as nat,
            ) implies self.cells.conv_ok(
                kernel@,
                OUT_C as int,
                KERN_C as int,
                0,
                0,
                z,
                (OUT_C * OUT_R) as nat,
            ) by {
                self.lemma_conv(
                    kernel@,
                    OUT_C as int,
                    KERN_C as int,
                    0,
                    0,
                    z,
                    (OUT_R * OUT_C) as nat,
                );
            }
        }
        match self.cells.convolve::<KERN_C, KERN_R, OUT_C, OUT_R>(&kernel.cells) {
            Ok(cells) => {
                proof {
                    let z = choose|z: T|
                        is_default(z) && forall|o: int|
                            0 <= o < OUT_C * OUT_R ==> cells@[o] == self.cells.conv_at(
                                kernel@,
                                OUT_C as int,
                                KERN_C as int,
                                0,
                                0,
                                z,
                                o,
                            );
                    self.lemma_conv(
                        kernel@,
                        OUT_C as int,
                        KERN_C as int,
                        0,
                        0,
                        z,
                        (OUT_R * OUT_C) as nat,
                    );
                    assert(is_default(z));
                }
                Ok(Matrix::wrap(cells))
            },
            Err(e) => Err(e),
        }
    }

    /// The convolution with the kernel centred on each position of the
    /// matrix: the matrix's own shape.
    pub fn convolve_with_pad<const KERN_R: usize, const KERN_C: usize>(
        &self,
        kernel: &Matrix<T, KERN_R, KERN_C>,
    ) -> (r: Matrix<T, R, C>) where T: Default
        requires
            self.wf(),
            kernel.wf(),
            T::obeys_add_spec(),
            T::obeys_mul_spec(),
            forall|z: T|
                is_default(z) ==> self.conv_ok(
                    kernel@,
                    C as int,
                    KERN_C as int,
                    -(KERN_R / 2),
                    -(KERN_C / 2),
                    z,
                    (R * C) as nat,
                ),
        ensures
            r.wf(),
            exists|z: T|
                is_default(z) && forall|o: int|
                    0 <= o < R * C ==> r@[o] == self.conv_at(
                        kernel@,
                        C as int,
                        KERN_C as int,
                        -(KERN_R / 2),
                        -(KERN_C / 2),
                        z,
                        o,
                    ),
    {
        proof {
            self.lemma_cells();
            kernel.lemma_cells();
            assert forall|z: T| is_default(z) implies self.cells.conv_ok(
                kernel@,
                C as int,
                KERN_C as int,
                -(KERN_C / 2),
                -(KERN_R / 2),
                z,
                (C * R) as nat,
            ) by {
                self.lemma_conv(
                    kernel@,
                    C as int,
                    KERN_C as int,
                    -(KERN_R / 2),
                    -(KERN_C / 2),
                    z,
                    (R * C) as nat,
                );
            }
        }
        let cells = self.cells.convolve_with_pad::<KERN_C, KERN_R>(&kernel.cells);
        proof {
            let z = choose|z: T|
                is_default(z) && forall|o: int|
                    0 <= o < C * R ==> cells@[o] == self.cells.conv_at(
                        kernel@,
                        C as int,
                        KERN_C as int,
                        -(KERN_C / 2),
                        -(KERN_R / 2),
                        z,
                        o,
                    );
            self.lemma_conv(
                kernel@,
                C as int,
                KERN_C as int,
                -(KERN_R / 2),
                -(KERN_C / 2),
                z,
                (R * C) as nat,
            );
            assert(is_default(z));
        }
        Matrix::wrap(cells)
    }
}

impl<T: Copy + Default, const R: usize, const C: usize> Default for Matrix<T, R, C> {
    /// Every element a default value, where the shape's element count fits
    /// a `usize`; no element at all where it does not.
    fn default() -> (r: Self)
        ensures
            R * C <= usize::MAX ==> r.wf(),
            exists|z: T| is_default(z) && forall|i: int| 0 <= i < r@.len() ==> r@[i] == z,
    {
        proof {
            assert(R * C == C * R) by (nonlinear_arith);
        }
        let r = Matrix { cells: Tensor2::default() };
        proof {
            r.lemma_cells();
        }
        r
    }
}

/// A walk over the rows of a matrix.
pub struct Rows<'a, T, const R: usize, const C: usize> {
    matrix: &'a Matrix<T, R, C>,
    row: usize,
}

/// A walk over the columns of a matrix.
pub struct Cols<'a, T, const R: usize, const C: usize> {
    matrix: &'a Matrix<T, R, C>,
    col: usize,
}

impl<'a, T: Copy, const R: usize, const C: usize> Rows<'a, T, R, C> {
    /// The matrix that is walked.
    pub closed spec fn source(&self) -> Matrix<T, R, C> {
        *self.matrix
    }

    /// The number of rows handed out so far.
    pub closed spec fn position(&self) -> nat {
        self.row as nat
    }

    /// The next row, while there is one.
    pub fn next(&mut self) -> (r: Option<Vec<T>>)
        requires
            old(self).source().wf(),
        ensures
            final(self).source() == old(self).source(),
            old(self).position() < R ==> r is Some && r->Some_0@ == old(self).source().row(
                old(self).position() as int,
            ) && final(self).position() == old(self).position() + 1,
            old(self).position() >= R ==> r is None && final(self).position() == old(
                self,
            ).position(),
    {
        if self.row >= R {
            return None;
        }
        let next = self.matrix.row_at(self.row);
        self.row += 1;
        Some(next)
    }
}

impl<'a, T: Copy, const R: usize, const C: usize> Cols<'a, T, R, C> {
    /// The matrix that is walked.
    pub closed spec fn source(&self) -> Matrix<T, R, C> {
        *self.matrix
    }

    /// The number of columns handed out so far.
    pub closed spec fn position(&self) -> nat {
        self.col as nat
    }

    /// The next column, while there is one.
    pub fn next(&mut self) -> (r: Option<Vec<T>>)
        requires
            old(self).source().wf(),
        ensures
            final(self).source() == old(self).source(),
            old(self).position() < C ==> r is Some && r->Some_0@ == old(self).source().col(
                old(self).position() as int,
            ) && final(self).position() == old(self).position() + 1,
            old(self).position() >= C ==> r is None && final(self).position() == old(
                self,
            ).position(),
    {
        if self.col >= C {
            return None;
        }
        let next = self.matrix.col_at(self.col);
        self.col += 1;
        Some(next)
    }
}

/// What `Add` asks of its operands: both well formed, and every pair of
/// elements allowed. The sum is stated over the elements, by `added`, in
/// the operator's own contract; as a value it is only chosen, so the
/// operator does not claim to return it.
impl<T: Copy + Add<Output = T>, const R: usize, const C: usize> AddSpecImpl for Matrix<T, R, C> {
    open spec fn obeys_add_spec() -> bool {
        false
    }

    open spec fn add_req(self, rhs: Self) -> bool {
        self.wf() && rhs.wf() && T::obeys_add_spec() && add_all_ok(self@, rhs@)
    }

    open spec fn add_spec(self, rhs: Self) -> Self {
        choose|t: Self| t.wf() && t@ == added(self@, rhs@)
    }
}

impl<T: Copy + Add<Output = T>, const R: usize, const C: usize> Add for Matrix<T, R, C> {
    type Output = Self;

    /// The sum, element by element.
    fn add(self, other: Self) -> (r: Self)
        ensures
            r.wf(),
            r@ == added(self@, other@),
    {
        proof {
            self.lemma_cells();
            other.lemma_cells();
        }
        let out = add_each(self.cells.get_data_ref(), other.cells.get_data_ref());
        match Self::new(out) {
            Ok(r) => r,
            Err(_) => unreached(),
        }
    }
}

/// What `Sub` asks of its operands: both well formed, and every pair of
/// elements allowed. The difference is stated over the elements, by `subtracted`, in
/// the operator's own contract; as a value it is only chosen, so the
/// operator does not claim to return it.
impl<T: Copy + Sub<Output = T>, const R: usize, const C: usize> SubSpecImpl for Matrix<T, R, C> {
    open spec fn obeys_sub_spec() -> bool {
        false
    }

    open spec fn sub_req(self, rhs: Self) -> bool {
        self.wf() && rhs.wf() && T::obeys_sub_spec() && sub_all_ok(self@, rhs@)
    }

    open spec fn sub_spec(self, rhs: Self) -> Self {
        choose|t: Self| t.wf() && t@ == subtracted(self@, rhs@)
    }
}

impl<T: Copy + Sub<Output = T>, const R: usize, const C: usize> Sub for Matrix<T, R, C> {
    type Output = Self;

    /// The difference, element by element.
    fn sub(self, other: Self) -> (r: Self)
        ensures
            r.wf(),
            r@ == subtracted(self@, other@),
    {
        proof {
            self.lemma_cells();
            other.lemma_cells();
        }
        let out = sub_each(self.cells.get_data_ref(), other.cells.get_data_ref());
        match Self::new(out) {
            Ok(r) => r,
            Err(_) => unreached(),
        }
    }
}

/// What `Mul` asks of its operands: both well formed, and every pair of
/// elements allowed. The product is stated over the elements, by `multiplied`, in
/// the operator's own contract; as a value it is only chosen, so the
/// operator does not claim to return it.
impl<T: Copy + Mul<Output = T>, const R: usize, const C: usize> MulSpecImpl for Matrix<T, R, C> {
    open spec fn obeys_mul_spec() -> bool {
        false
    }

    open spec fn mul_req(self, rhs: Self) -> bool {
        self.wf() && rhs.wf() && T::obeys_mul_spec() && mul_all_ok(self@, rhs@)
    }

    open spec fn mul_spec(self, rhs: Self) -> Self {
        choose|t: Self| t.wf() && t@ == multiplied(self@, rhs@)
    }
}

impl<T: Copy + Mul<Output = T>, const R: usize, const C: usize> Mul for Matrix<T, R, C> {
    type Output = Self;

    /// The product, element by element.
    fn mul(self, other: Self) -> (r: Self)
        ensures
            r.wf(),
            r@ == multiplied(self@, other@),
    {
        proof {
            self.lemma_cells();
            other.lemma_cells();
        }
        let out = mul_each(self.cells.get_data_ref(), other.cells.get_data_ref());
        match Self::new(out) {
            Ok(r) => r,
            Err(_) => unreached(),
        }
    }
}

/// What `Div` asks of its operands: both well formed, and every pair of
/// elements allowed. The quotient is stated over the elements, by `divided`, in
/// the operator's own contract; as a value it is only chosen, so the
/// operator does not claim to return it.
impl<T: Copy + Div<Output = T>, const R: usize, const C: usize> DivSpecImpl for Matrix<T, R, C> {
    open spec fn obeys_div_spec() -> bool {
        false
    }

    open spec fn div_req(self, rhs: Self) -> bool {
        self.wf() && rhs.wf() && T::obeys_div_spec() && div_all_ok(self@, rhs@)
    }

    open spec fn div_spec(self, rhs: Self) -> Self {
        choose|t: Self| t.wf() && t@ == divided(self@, rhs@)
    }
}

impl<T: Copy + Div<Output = T>, const R: usize, const C: usize> Div for Matrix<T, R, C> {
    type Output = Self;

    /// The quotient, element by element.
    fn div(self, other: Self) -> (r: Self)
        ensures
            r.wf(),
            r@ == divided(self@, other@),
    {
        proof {
            self.lemma_cells();
            other.lemma_cells();
        }
        let out = div_each(self.cells.get_data_ref(), other.cells.get_data_ref());
        match Self::new(out) {
            Ok(r) => r,
            Err(_) => unreached(),
        }
    }
}

impl<T: Copy, const R: usize, const C: usize> Matrix<T, R, C> {
    /// Puts the sum with `other`, element by element, in this matrix's place.
    pub fn add_assign(&mut self, other: &Self) where T: Add<Output = T>
        requires
            old(self).wf(),
            other.wf(),
            T::obeys_add_spec(),
            add_all_ok(old(self)@, other@),
        ensures
            final(self).wf(),
            final(self)@ == added(old(self)@, other@),
    {
        proof {
            self.lemma_cells();
            other.lemma_cells();
        }
        let out = add_each(self.cells.get_data_ref(), other.cells.get_data_ref());
        *self = match Self::new(out) {
            Ok(r) => r,
            Err(_) => unreached(),
        };
    }

    /// Puts the difference with `other`, element by element, in this matrix's place.
    pub fn sub_assign(&mut self, other: &Self) where T: Sub<Output = T>
        requires
            old(self).wf(),
            other.wf(),
            T::obeys_sub_spec(),
            sub_all_ok(old(self)@, other@),
        ensures
            final(self).wf(),
            final(self)@ == subtracted(old(self)@, other@),
    {
        proof {
            self.lemma_cells();
            other.lemma_cells();
        }
        let out = sub_each(self.cells.get_data_ref(), other.cells.get_data_ref());
        *self = match Self::new(out) {
            Ok(r) => r,
            Err(_) => unreached(),
        };
    }

    /// Puts the product with `other`, element by element, in this matrix's place.
    pub fn mul_assign(&mut self, other: &Self) where T: Mul<Output = T>
        requires
            old(self).wf(),
            other.wf(),
            T::obeys_mul_spec(),
            mul_all_ok(old(self)@, other@),
        ensures
            final(self).wf(),
            final(self)@ == multiplied(old(self)@, other@),
    {
        proof {
            self.lemma_cells();
            other.lemma_cells();
        }
        let out = mul_each(self.cells.get_data_ref(), other.cells.get_data_ref());
        *self = match Self::new(out) {
            Ok(r) => r,
            Err(_) => unreached(),
        };
    }

    /// Puts the quotient with `other`, element by element, in this matrix's place.
    pub fn div_assign(&mut self, other: &Self) where T: Div<Output = T>
        requires
            old(self).wf(),
            other.wf(),
            T::obeys_div_spec(),
            div_all_ok(old(self)@, other@),
        ensures
            final(self).wf(),
            final(self)@ == divided(old(self)@, other@),
    {
        proof {
            self.lemma_cells();
            other.lemma_cells();
        }
        let out = div_each(self.cells.get_data_ref(), other.cells.get_data_ref());
        *self = match Self::new(out) {
            Ok(r) => r,
            Err(_) => unreached(),
        };
    }
}

} // verus!
