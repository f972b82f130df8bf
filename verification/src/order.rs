//! Comparison of values whose order obeys its specification.

use core::cmp::Ordering;
use vstd::prelude::*;
use vstd::std_specs::cmp::PartialOrdSpec;

verus! {

/// Comparisons of `V` return what their specification says.
pub open spec fn ordered<V: PartialOrd>() -> bool {
    V::obeys_partial_cmp_spec()
}

/// `a` is greater than `b`.
pub open spec fn exceeds<V: PartialOrd>(a: V, b: V) -> bool {
    a.partial_cmp_spec(&b) == Some(Ordering::Greater)
}

/// `a` is greater than `b` or equal to it.
pub open spec fn reaches<V: PartialOrd>(a: V, b: V) -> bool {
    a.partial_cmp_spec(&b) matches Some(Ordering::Greater | Ordering::Equal)
}

/// Being greater is transitive, and never holds both ways.
pub open spec fn strict_order<V: PartialOrd>() -> bool {
    &&& forall|x: V, y: V, z: V|
        exceeds(x, y) && #[trigger] exceeds(y, z) ==> #[trigger] exceeds(x, z)
    &&& forall|x: V, y: V| !(#[trigger] exceeds(x, y) && exceeds(y, x))
}

/// Whether `a` is greater than `b`.
pub fn greater<V: PartialOrd>(a: &V, b: &V) -> (r: bool)
    requires
        ordered::<V>(),
    ensures
        r == exceeds(*a, *b),
{
    *a > *b
}

/// Whether `a` is greater than `b` or equal to it.
pub fn at_least<V: PartialOrd>(a: &V, b: &V) -> (r: bool)
    requires
        ordered::<V>(),
    ensures
        r == reaches(*a, *b),
{
    *a >= *b
}

} // verus!
