//! What the algorithms of this crate assume of the type they order: that
//! its comparison operators describe a total order that agrees with
//! equality, and that duplicating a value yields an equal value.

use core::cmp::Ordering;
use vstd::prelude::*;
use vstd::std_specs::cmp::PartialEqSpec;
use vstd::std_specs::cmp::PartialOrdSpec;

verus! {

/// `a` is strictly below `b` in the order of `T`.
pub open spec fn lt<T: PartialOrd>(a: T, b: T) -> bool {
    a.partial_cmp_spec(&b) == Some(Ordering::Less)
}

/// `a` is below or equal to `b` in the order of `T`.
pub open spec fn le<T: PartialOrd>(a: T, b: T) -> bool {
    lt(a, b) || a == b
}

/// The operators `==`, `<`, `<=`, `>`, `>=` of `T` compute one total order:
/// they do what their specifications say, any two values are comparable,
/// and two values compare as equal exactly when they are the same value.
pub open spec fn is_total_order<T: PartialOrd>() -> bool {
    &&& T::obeys_eq_spec()
    &&& T::obeys_partial_cmp_spec()
    &&& forall|a: T, b: T| #[trigger] a.eq_spec(&b) <==> a == b
    &&& forall|a: T, b: T|
        #![trigger a.partial_cmp_spec(&b)]
        a.partial_cmp_spec(&b) == if a == b {
            Some(Ordering::Equal)
        } else if lt(a, b) {
            Some(Ordering::Less)
        } else {
            Some(Ordering::Greater)
        }
    &&& forall|a: T, b: T| #![trigger lt(a, b)] lt(a, b) <==> !lt(b, a) && a != b
    &&& forall|a: T, b: T, c: T| #![trigger lt(a, b), lt(b, c)] lt(a, b) && lt(b, c) ==> lt(a, c)
}

/// Cloning a value of `T` yields the same value.
pub open spec fn clones_exactly<T: Clone>() -> bool {
    forall|a: T, b: T| #[trigger] cloned::<T>(a, b) ==> a == b
}

/// The primitive signed integers are totally ordered and clone exactly.
pub proof fn lemma_signed_integers_ordered()
    ensures
        is_total_order::<i8>() && clones_exactly::<i8>(),
        is_total_order::<i16>() && clones_exactly::<i16>(),
        is_total_order::<i32>() && clones_exactly::<i32>(),
        is_total_order::<i64>() && clones_exactly::<i64>(),
        is_total_order::<i128>() && clones_exactly::<i128>(),
        is_total_order::<isize>() && clones_exactly::<isize>(),
{
}

/// The primitive unsigned integers are totally ordered and clone exactly.
pub proof fn lemma_unsigned_integers_ordered()
    ensures
        is_total_order::<u8>() && clones_exactly::<u8>(),
        is_total_order::<u16>() && clones_exactly::<u16>(),
        is_total_order::<u32>() && clones_exactly::<u32>(),
        is_total_order::<u64>() && clones_exactly::<u64>(),
        is_total_order::<u128>() && clones_exactly::<u128>(),
        is_total_order::<usize>() && clones_exactly::<usize>(),
{
}

} // verus!
