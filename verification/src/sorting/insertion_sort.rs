//! Insertion sort on a slice.

use crate::order::{is_total_order, le, lt};
use vstd::math::min;
use vstd::prelude::*;
use vstd::seq_lib::{to_multiset_contains, to_multiset_insert, to_multiset_remove};

verus! {

/// `<[T]>::rotate_right` of the standard library, as its documentation
/// describes it: the last `k` elements of the slice come to the front, in
/// their order, and the others follow in theirs. It panics where `k`
/// exceeds the length of the slice, which the precondition rules out.
pub assume_specification<Item>[ <[Item]>::rotate_right ](slice: &mut [Item], k: usize)
    requires
        k <= old(slice)@.len(),
    ensures
        final(slice)@ == old(slice)@.subrange(old(slice)@.len() - k, old(slice)@.len() as int)
            + old(slice)@.subrange(0, old(slice)@.len() - k),
;

/// The elements of `s` ascend: none is above a later one.
pub open spec fn sorted<T: PartialOrd>(s: Seq<T>) -> bool {
    forall|i: int, j: int| #![trigger s[i], s[j]] 0 <= i <= j < s.len() ==> le(s[i], s[j])
}

/// Moves the element at index `to` forward to index `from`; the elements
/// in between each move back by one.
fn move_forward<T>(slice: &mut [T], from: usize, to: usize)
    requires
        from <= to < old(slice)@.len(),
    ensures
        final(slice)@ == old(slice)@.remove(to as int).insert(from as int, old(slice)@[to as int]),
{
    let ghost before = slice@;
    let length = slice.len();
    assert(to < length);
    let (head, tail) = slice.split_at_mut(from);
    let (part, rest) = tail.split_at_mut(to - from + 1);
    part.rotate_right(1);
    assert(head@ + (part@ + rest@) =~= before.remove(to as int).insert(
        from as int,
        before[to as int],
    ));
}

/// Sorts the slice in place, in ascending order. Each element in turn is
/// moved forward past the elements before it that are above it.
///
/// Whatever the comparison operators of `T` do, the slice holds the same
/// elements afterwards as before. Where they describe a total order, the
/// elements ascend.
pub fn insertion_sort<T: PartialOrd>(ordered_array: &mut [T])
    ensures
        final(ordered_array)@.to_multiset() == old(ordered_array)@.to_multiset(),
        is_total_order::<T>() ==> sorted(final(ordered_array)@),
{
    let n = ordered_array.len();
    let mut j: usize = 1;
    while j < n
        invariant
            n == ordered_array@.len(),
            1 <= j,
            ordered_array@.to_multiset() == old(ordered_array)@.to_multiset(),
            is_total_order::<T>() ==> sorted(ordered_array@.take(min(j as int, n as int))),
        decreases n - j,
    {
        // k is the position to insert.
        let mut k = j;
        while k > 0 && !(ordered_array[j] >= ordered_array[k - 1])
            invariant
                k <= j < n,
                n == ordered_array@.len(),
                is_total_order::<T>() ==> forall|m: int|
                    k <= m < j ==> lt(ordered_array@[j as int], #[trigger] ordered_array@[m]),
            decreases k,
        {
            k -= 1;
        }
        let ghost before = ordered_array@;
        if k != j {
            // Insert the value at its position by rotating that part
            // of the slice.
            move_forward(ordered_array, k, j);
        }
        proof {
            let after = before.remove(j as int).insert(k as int, before[j as int]);
            if k == j {
                assert(after =~= before);
            }
            assert(ordered_array@ == after);
            assert(after.to_multiset() =~= before.to_multiset()) by {
                to_multiset_remove(before, j as int);
                to_multiset_insert(before.remove(j as int), k as int, before[j as int]);
                to_multiset_contains(before, before[j as int]);
            }
            if is_total_order::<T>() {
                let prefix = after.take(j + 1);
                let sorted_before = before.take(j as int);
                assert forall|a: int, b: int| 0 <= a <= b < prefix.len() implies le(
                    #[trigger] prefix[a],
                    #[trigger] prefix[b],
                ) by {
                    let x = before[j as int];
                    // Where each index of the result comes from.
                    let from_a = if a < k { a } else if a == k { j as int } else { a - 1 };
                    let from_b = if b < k { b } else if b == k { j as int } else { b - 1 };
                    assert(prefix[a] == before[from_a]);
                    assert(prefix[b] == before[from_b]);
                    if a != k && b != k {
                        assert(le(sorted_before[from_a], sorted_before[from_b]));
                    } else if a == k && b != k {
                        assert(lt(x, before[from_b]));
                    } else if a != k && b == k {
                        assert(le(sorted_before[from_a], sorted_before[k - 1]));
                        assert(!lt(x, before[k - 1]));
                    }
                }
            }
        }
        j += 1;
    }
    assert(ordered_array@.take(n as int) =~= ordered_array@);
}

} // verus!
