//! Intersection on canonical sequences.

use super::canonical::{
    begins_after, canonical, covered, covers, lemma_begins_after_excludes,
    lemma_canonical_drop_first, lemma_canonical_push_front, seq_of,
};
use super::endpoint::{gap_between, right_precedes, Endpoint};
use super::interval::Interval;
use crate::order::is_total_order;
use vstd::prelude::*;

verus! {

broadcast use Interval::lemma_ends;

/// The common parts of the intervals of two canonical sequences, in
/// ascending order. The two sequences are walked together from the left:
/// the first intervals of both contribute their common part, and the one
/// that ends first is left behind, or both where they end together.
pub open spec fn intersected<T: PartialOrd + Clone>(
    a: Seq<Interval<T>>,
    b: Seq<Interval<T>>,
) -> Seq<Interval<T>>
    decreases a.len() + b.len(),
{
    if a.len() == 0 || b.len() == 0 {
        Seq::empty()
    } else {
        let rest = if right_precedes(a[0].right_end(), b[0].right_end()) {
            intersected(a.drop_first(), b)
        } else if right_precedes(b[0].right_end(), a[0].right_end()) {
            intersected(a, b.drop_first())
        } else {
            intersected(a.drop_first(), b.drop_first())
        };
        seq_of(a[0].common_part(b[0])) + rest
    }
}

/// Intersecting two canonical sequences gives a canonical sequence that
/// covers the points that both cover, and begins no earlier than either.
pub proof fn lemma_intersected<T: PartialOrd + Clone>(a: Seq<Interval<T>>, b: Seq<Interval<T>>)
    requires
        is_total_order::<T>(),
        canonical(a),
        canonical(b),
    ensures
        canonical(intersected(a, b)),
        covered(intersected(a, b)) == covered(a).intersect(covered(b)),
        forall|right: Endpoint<T>|
            begins_after(a, right) || begins_after(b, right) ==> #[trigger] begins_after(
                intersected(a, b),
                right,
            ),
    decreases a.len() + b.len(),
{
    let r = intersected(a, b);
    if a.len() > 0 && b.len() > 0 {
        let head = a[0].common_part(b[0]);
        let a_first = right_precedes(a[0].right_end(), b[0].right_end());
        let b_first = right_precedes(b[0].right_end(), a[0].right_end());
        let a_rest = if b_first {
            a
        } else {
            a.drop_first()
        };
        let b_rest = if a_first {
            b
        } else {
            b.drop_first()
        };
        let rest = intersected(a_rest, b_rest);
        assert(r == seq_of(head) + rest);
        lemma_canonical_drop_first(a);
        lemma_canonical_drop_first(b);
        lemma_intersected(a_rest, b_rest);
        Interval::lemma_common_part(a[0], b[0]);
        // The common part of the first two lies before all that is left
        // of the sequence whose first interval was left behind.
        if head is Some {
            let c = head->0;
            if !b_first {
                assert(begins_after(a_rest, c.right_end())) by {
                    assert forall|i: int| 0 <= i < a_rest.len() implies gap_between(
                        c.right_end(),
                        (#[trigger] a_rest[i]).left_end(),
                    ) by {
                        assert(gap_between(a[0].right_end(), a_rest[i].left_end()));
                    }
                }
            } else {
                assert(begins_after(b_rest, c.right_end())) by {
                    assert forall|i: int| 0 <= i < b_rest.len() implies gap_between(
                        c.right_end(),
                        (#[trigger] b_rest[i]).left_end(),
                    ) by {
                        assert(gap_between(b[0].right_end(), b_rest[i].left_end()));
                    }
                }
            }
        }
        lemma_canonical_push_front(head, rest);
        assert forall|right: Endpoint<T>|
            begins_after(a, right) || begins_after(b, right) implies #[trigger] begins_after(
            r,
            right,
        ) by {
            assert(begins_after(a_rest, right) || begins_after(b_rest, right));
            assert(gap_between(right, a[0].left_end()) || gap_between(right, b[0].left_end()));
        }
        assert forall|p: T| covers(r, p) <==> covers(a, p) && covers(b, p) by {
            assert(Interval::points_of(head).contains(p) <==> a[0]@.intersect(b[0]@).contains(p));
            assert(covered(rest).contains(p) <==> covered(a_rest).intersect(
                covered(b_rest),
            ).contains(p));
            // An interval that was left behind shares no point with what
            // is left of the other sequence.
            if !b_first && a[0].contains_point(p) {
                lemma_begins_after_excludes(b.drop_first(), b[0].right_end(), p);
            }
            if !a_first && b[0].contains_point(p) {
                lemma_begins_after_excludes(a.drop_first(), a[0].right_end(), p);
            }
        }
    }
    assert(covered(r) =~= covered(a).intersect(covered(b)));
}

} // verus!
