//! Arithmetic of storage positions: a flat position and the coordinates it
//! stands for.

use vstd::prelude::*;

verus! {

/// A column and a row inside the extents give a position inside the store.
pub proof fn lemma_index2(c: int, r: int, cols: int, rows: int)
    requires
        0 <= c < cols,
        0 <= r < rows,
    ensures
        0 <= r * cols + c < cols * rows,
        (r * cols + c) % cols == c,
        (r * cols + c) / cols == r,
{
    assert(r * cols + c < cols * rows) by (nonlinear_arith)
        requires
            0 <= c < cols,
            0 <= r < rows,
    ;
    assert(0 <= r * cols) by (nonlinear_arith)
        requires
            0 <= r,
            0 < cols,
    ;
    vstd::arithmetic::div_mod::lemma_fundamental_div_mod_converse(r * cols + c, cols, r, c);
}

/// A position inside the store splits into a column and a row inside the
/// extents.
pub proof fn lemma_split2(i: int, cols: int, rows: int)
    requires
        0 <= i < cols * rows,
        0 <= cols,
        0 <= rows,
    ensures
        0 < cols,
        0 <= i % cols < cols,
        0 <= i / cols < rows,
        (i / cols) * cols + i % cols == i,
{
    assert(0 < cols) by (nonlinear_arith)
        requires
            0 <= i < cols * rows,
            0 <= cols,
    ;
    vstd::arithmetic::div_mod::lemma_fundamental_div_mod(i, cols);
    vstd::arithmetic::div_mod::lemma_mod_bound(i, cols);
    assert(0 <= i / cols < rows) by (nonlinear_arith)
        requires
            0 <= i < cols * rows,
            0 < cols,
            i == cols * (i / cols) + i % cols,
            0 <= i % cols < cols,
    ;
    assert((i / cols) * cols == cols * (i / cols)) by (nonlinear_arith);
}

/// Coordinates inside the extents give a position inside the store.
pub proof fn lemma_index3(a: int, b: int, c: int, na: int, nb: int, nc: int)
    requires
        0 <= a < na,
        0 <= b < nb,
        0 <= c < nc,
    ensures
        0 <= a + b * na + c * (na * nb) < na * nb * nc,
        0 <= a + b * na < na * nb,
        (a + b * na + c * (na * nb)) % na == a,
        ((a + b * na + c * (na * nb)) / na) % nb == b,
        (a + b * na + c * (na * nb)) / (na * nb) == c,
{
    lemma_index2(a, b, na, nb);
    let ab = b * na + a;
    lemma_index2(ab, c, na * nb, nc);
    assert(c * (na * nb) + ab == a + b * na + c * (na * nb));
    let i = a + b * na + c * (na * nb);
    assert(i == (b + c * nb) * na + a) by (nonlinear_arith)
        requires
            i == a + b * na + c * (na * nb),
    ;
    assert(0 <= b + c * nb) by (nonlinear_arith)
        requires
            0 <= b,
            0 <= c,
            0 < nb,
    ;
    vstd::arithmetic::div_mod::lemma_fundamental_div_mod_converse(i, na, b + c * nb, a);
    vstd::arithmetic::div_mod::lemma_fundamental_div_mod_converse(b + c * nb, nb, c, b);
}

/// A position inside the store splits into coordinates inside the extents.
pub proof fn lemma_split3(i: int, na: int, nb: int, nc: int)
    requires
        0 <= i < na * nb * nc,
        0 <= na,
        0 <= nb,
        0 <= nc,
    ensures
        0 < na,
        0 < nb,
        0 < na * nb,
        0 <= i % na < na,
        0 <= (i / na) % nb < nb,
        0 <= i / (na * nb) < nc,
        i % na + ((i / na) % nb) * na + (i / (na * nb)) * (na * nb) == i,
{
    assert(0 < na && 0 < nb && 0 < na * nb) by (nonlinear_arith)
        requires
            0 <= i < na * nb * nc,
            0 <= na,
            0 <= nb,
            0 <= nc,
    ;
    lemma_split2(i, na * nb, nc);
    let c = i / (na * nb);
    let ab = i % (na * nb);
    lemma_split2(ab, na, nb);
    let b = ab / na;
    let a = ab % na;
    lemma_index3(a, b, c, na, nb, nc);
    assert(a + b * na + c * (na * nb) == i);
}

} // verus!
