//! Tensors as text.

use vstd::prelude::*;
use vstd::string::StringExecFns;
use crate::index::lemma_index2;
use crate::matrix::Matrix;
use crate::tensor::Tensor;
use crate::tensor::Tensor1;
use crate::tensor::Tensor2;
use crate::tensor::Tensor3;

verus! {

/// `format!` with `{:?}` on a row: what `Debug` writes for a vector.
#[verifier::external_body]
fn debug_text<T: core::fmt::Debug>(row: &Vec<T>) -> (r: String) {
    format!("{:?}", row)
}

/// `text` is something that `Debug` writes for a vector of the elements
/// `row`.
pub closed spec fn is_debug_text<T: core::fmt::Debug>(row: Seq<T>, text: Seq<char>) -> bool {
    exists|v: Vec<T>, s: String|
        v@ == row && s@ == text && #[trigger] call_ensures(debug_text::<T>, (&v,), s)
}

/// The text of the `size` elements of `store` from `start` on.
fn chunk_text<T: Copy + core::fmt::Debug>(store: &Vec<T>, start: usize, size: usize) -> (r: String)
    requires
        start + size <= store@.len(),
    ensures
        is_debug_text(store@.subrange(start as int, start + size), r@),
{
    let total: usize = store.len();
    let mut row: Vec<T> = Vec::new();
    let mut i: usize = 0;
    while i < size
        invariant
            i <= size,
            total == store@.len(),
            start + size <= store@.len(),
            row@ == store@.subrange(start as int, start + i),
        decreases size - i,
    {
        row.push(store[start + i]);
        assert(row@ =~= store@.subrange(start as int, start + i + 1));
        i += 1;
    }
    let text = debug_text(&row);
    assert(call_ensures(debug_text::<T>, (&row,), text));
    text
}

/// The first `n` of `rows`, each on a line of its own.
pub open spec fn lines(rows: Seq<Seq<char>>, n: nat) -> Seq<char>
    decreases n,
{
    if n == 0 {
        Seq::empty()
    } else {
        lines(rows, (n - 1) as nat) + rows[n - 1] + "\n"@
    }
}

/// `text` holds `n` lines, of which line `i` is the text of the `size`
/// elements of `store` from `i * size` on.
pub open spec fn is_lines<T: core::fmt::Debug>(text: Seq<char>, store: Seq<T>, size: int, n: nat) -> bool {
    exists|rows: Seq<Seq<char>>|
        {
            &&& rows.len() == n
            &&& forall|i: int|
                0 <= i < n ==> is_debug_text(
                    store.subrange(i * size, (i + 1) * size),
                    #[trigger] rows[i],
                )
            &&& text == #[trigger] lines(rows, n)
        }
}

/// Taking a line away leaves the lines before it.
proof fn lemma_lines_push(rows: Seq<Seq<char>>, row: Seq<char>, n: nat)
    requires
        n <= rows.len(),
    ensures
        lines(rows.push(row), n) == lines(rows, n),
    decreases n,
{
    if n > 0 {
        lemma_lines_push(rows, row, (n - 1) as nat);
    }
}

/// The text of the first `n` chunks of `size` elements of `store`, one to
/// a line.
fn lines_text<T: Copy + core::fmt::Debug>(store: &Vec<T>, size: usize, n: usize) -> (r: String)
    requires
        n * size <= store@.len(),
    ensures
        is_lines(r@, store@, size as int, n as nat),
{
    let total: usize = store.len();
    let mut out = String::new();
    let ghost mut rows: Seq<Seq<char>> = Seq::empty();
    let mut i: usize = 0;
    while i < n
        invariant
            i <= n,
            total == store@.len(),
            n * size <= store@.len(),
            rows.len() == i,
            forall|k: int|
                0 <= k < i ==> is_debug_text(
                    store@.subrange(k * size, (k + 1) * size),
                    #[trigger] rows[k],
                ),
            out@ == lines(rows, i as nat),
        decreases n - i,
    {
        proof {
            assert(0 <= i * size && i * size + size == (i + 1) * size && (i + 1) * size <= n * size)
                by (nonlinear_arith)
                requires
                    0 <= i < n,
                    0 <= size,
            ;
        }
        let row = chunk_text(store, i * size, size);
        out.append(row.as_str());
        out.append("\n");
        proof {
            lemma_lines_push(rows, row@, i as nat);
            rows = rows.push(row@);
            assert(out@ =~= lines(rows, (i + 1) as nat));
        }
        i += 1;
    }
    out
}

impl<T: Copy + core::fmt::Debug, const L: usize> Tensor1<T, L> {
    /// The elements as `Debug` writes them, and a line break.
    pub fn to_text(&self) -> (r: String)
        requires
            self.wf(),
        ensures
            is_lines(r@, self@, L as int, 1),
    {
        assert(1 * L == L) by (nonlinear_arith);
        lines_text(self.get_data_ref(), L, 1)
    }
}

impl<T: Copy + core::fmt::Debug, const C: usize, const R: usize> Tensor2<T, C, R> {
    /// `C` lines of `R` elements each, in storage order, as `Debug` writes
    /// them.
    pub fn to_text(&self) -> (r: String)
        requires
            self.wf(),
        ensures
            is_lines(r@, self@, R as int, C as nat),
    {
        lines_text(self.get_data_ref(), R, C)
    }
}

impl<T: Copy + core::fmt::Debug, const R: usize, const C: usize> Matrix<T, R, C> {
    /// A line for each row, as `Debug` writes its elements.
    pub fn to_text(&self) -> (r: String)
        requires
            self.wf(),
        ensures
            is_lines(r@, self@, C as int, R as nat),
    {
        lines_text(self.get_data_ref(), C, R)
    }
}

/// The first `n` rows of plane `plane` of `width` rows, each after a line
/// break.
pub open spec fn plane_rows(rows: Seq<Seq<char>>, width: int, plane: int, n: nat) -> Seq<char>
    decreases n,
{
    if n == 0 {
        Seq::empty()
    } else {
        plane_rows(rows, width, plane, (n - 1) as nat) + "\n"@ + rows[plane * width + n - 1]
    }
}

/// The first `n` planes of `width` rows each: a plane's rows, each after a
/// line break, and a line break after the plane.
pub open spec fn planes(rows: Seq<Seq<char>>, width: int, n: nat) -> Seq<char>
    decreases n,
{
    if n == 0 {
        Seq::empty()
    } else {
        planes(rows, width, (n - 1) as nat) + plane_rows(rows, width, n - 1, width as nat) + "\n"@
    }
}

/// A row put after those of a plane's first `n` does not change their
/// text.
proof fn lemma_plane_rows_push(rows: Seq<Seq<char>>, row: Seq<char>, width: int, plane: int, n: nat)
    requires
        0 <= plane * width,
        plane * width + n <= rows.len(),
    ensures
        plane_rows(rows.push(row), width, plane, n) == plane_rows(rows, width, plane, n),
    decreases n,
{
    if n > 0 {
        lemma_plane_rows_push(rows, row, width, plane, (n - 1) as nat);
    }
}

impl<T: Copy + core::fmt::Debug, const D1: usize, const D2: usize, const D3: usize> Tensor3<
    T,
    D1,
    D2,
    D3,
> {
    /// The planes in square brackets: each row of `D1` elements after a
    /// line break, as `Debug` writes it, and a line break after each
    /// plane and after the closing bracket.
    pub fn to_text(&self) -> (r: String)
        requires
            self.wf(),
        ensures
            exists|rows: Seq<Seq<char>>|
                {
                    &&& rows.len() == D3 * D2
                    &&& forall|k: int|
                        0 <= k < D3 * D2 ==> is_debug_text(
                            self@.subrange(k * D1, (k + 1) * D1),
                            #[trigger] rows[k],
                        )
                    &&& r@ == "["@ + #[trigger] planes(rows, D2 as int, D3 as nat) + "]\n"@
                },
    {
        let store = self.get_data_ref();
        let total: usize = store.len();
        let mut out = String::new();
        out.append("[");
        let ghost mut rows: Seq<Seq<char>> = Seq::empty();
        let mut i: usize = 0;
        while i < D3
            invariant
                i <= D3,
                store@ == self@,
                total == store@.len(),
                total == D1 * D2 * D3,
                rows.len() == i * D2,
                forall|k: int|
                    0 <= k < i * D2 ==> is_debug_text(
                        self@.subrange(k * D1, (k + 1) * D1),
                        #[trigger] rows[k],
                    ),
                out@ == "["@ + planes(rows, D2 as int, i as nat),
            decreases D3 - i,
        {
            let ghost head = out@;
            let ghost done = rows;
            let mut j: usize = 0;
            while j < D2
                invariant
                    j <= D2,
                    i < D3,
                    store@ == self@,
                    total == store@.len(),
                    total == D1 * D2 * D3,
                    rows.len() == i * D2 + j,
                    done.len() == i * D2,
                    rows.subrange(0, i * D2) == done,
                    forall|k: int|
                        0 <= k < i * D2 + j ==> is_debug_text(
                            self@.subrange(k * D1, (k + 1) * D1),
                            #[trigger] rows[k],
                        ),
                    out@ == head + plane_rows(rows, D2 as int, i as int, j as nat),
                decreases D2 - j,
            {
                proof {
                    lemma_index2(j as int, i as int, D2 as int, D3 as int);
                    let k = i * D2 + j;
                    assert(0 <= k * D1 && k * D1 + D1 == (k + 1) * D1 && (k + 1) * D1 <= D1 * D2 * D3)
                        by (nonlinear_arith)
                        requires
                            0 <= k < D2 * D3,
                            0 <= D1,
                    ;
                    assert(i * D1 * D2 + j * D1 == k * D1 && 0 <= i * D1 <= k * D1 && 0 <= i * D1
                        * D2 <= k * D1 && 0 <= j * D1 <= k * D1) by (nonlinear_arith)
                        requires
                            k == i * D2 + j,
                            0 <= i,
                            0 <= j < D2,
                            0 <= D1,
                    ;
                }
                let row = chunk_text(store, i * D1 * D2 + j * D1, D1);
                out.append("\n");
                out.append(row.as_str());
                proof {
                    let before = rows;
                    lemma_plane_rows_push(before, row@, D2 as int, i as int, j as nat);
                    rows = rows.push(row@);
                    assert(rows.subrange(0, i * D2) =~= done);
                    assert(out@ =~= head + plane_rows(rows, D2 as int, i as int, (j + 1) as nat));
                }
                j += 1;
            }
            out.append("\n");
            proof {
                assert((i + 1) * D2 == i * D2 + D2) by (nonlinear_arith);
                lemma_planes_same(done, rows, D2 as int, i as nat);
                assert(out@ =~= "["@ + planes(rows, D2 as int, (i + 1) as nat));
            }
            i += 1;
        }
        out.append("]\n");
        proof {
            assert(D3 * D2 == D2 * D3) by (nonlinear_arith);
        }
        out
    }
}

/// Rows put after those of the first `n` planes do not change their text.
proof fn lemma_planes_same(rows: Seq<Seq<char>>, more: Seq<Seq<char>>, width: int, n: nat)
    requires
        0 <= width,
        n * width <= rows.len() <= more.len(),
        more.subrange(0, rows.len() as int) == rows,
    ensures
        planes(more, width, n) == planes(rows, width, n),
    decreases n,
{
    if n > 0 {
        assert((n - 1) * width + width == n * width && 0 <= (n - 1) * width) by (nonlinear_arith)
            requires
                n >= 1,
                0 <= width,
        ;
        lemma_planes_same(rows, more, width, (n - 1) as nat);
        lemma_plane_rows_same(rows, more, width, n - 1, width as nat);
    }
}

/// Rows put after those of a plane's first `n` do not change their text.
proof fn lemma_plane_rows_same(
    rows: Seq<Seq<char>>,
    more: Seq<Seq<char>>,
    width: int,
    plane: int,
    n: nat,
)
    requires
        0 <= plane * width,
        plane * width + n <= rows.len() <= more.len(),
        more.subrange(0, rows.len() as int) == rows,
    ensures
        plane_rows(more, width, plane, n) == plane_rows(rows, width, plane, n),
    decreases n,
{
    if n > 0 {
        lemma_plane_rows_same(rows, more, width, plane, (n - 1) as nat);
        assert(more.subrange(0, rows.len() as int)[plane * width + n - 1] == more[plane * width + n
            - 1]);
    }
}

} // verus!
