//! Comparisons of generic coordinates, read through the order that std's
//! `PartialOrd` gives a type.
use core::cmp::Ordering;
use vstd::prelude::*;
use vstd::std_specs::cmp::PartialOrdSpec;

verus! {

/// The type's `<`, `<=`, `>` and `>=` follow its `partial_cmp`.
pub open spec fn ordered<T: PartialOrd>() -> bool {
    T::obeys_partial_cmp_spec()
}

pub open spec fn is_less<T: PartialOrd>(a: T, b: T) -> bool {
    a.partial_cmp_spec(&b) == Some(Ordering::Less)
}

pub open spec fn is_greater<T: PartialOrd>(a: T, b: T) -> bool {
    a.partial_cmp_spec(&b) == Some(Ordering::Greater)
}

pub open spec fn is_less_eq<T: PartialOrd>(a: T, b: T) -> bool {
    a.partial_cmp_spec(&b) matches Some(Ordering::Less | Ordering::Equal)
}

pub open spec fn is_greater_eq<T: PartialOrd>(a: T, b: T) -> bool {
    a.partial_cmp_spec(&b) matches Some(Ordering::Greater | Ordering::Equal)
}

/// On `i32` the generic comparisons are the integer ones.
pub proof fn lemma_i32_order(a: i32, b: i32)
    ensures
        ordered::<i32>(),
        is_less(a, b) == (a < b),
        is_greater(a, b) == (a > b),
        is_less_eq(a, b) == (a <= b),
        is_greater_eq(a, b) == (a >= b),
{
}

/// `a` and `b` compare, and comparing them the other way round gives the
/// opposite answer: no NaN among them.
pub open spec fn comparable<T: PartialOrd>(a: T, b: T) -> bool {
    &&& a.partial_cmp_spec(&b) is Some
    &&& is_greater(a, b) == is_less(b, a)
    &&& is_less(a, b) == is_greater(b, a)
}

} // verus!
