//! Union on canonical sequences: adding one interval, and adding the
//! intervals of a whole sequence.

use super::canonical::{
    begins_after, canonical, covered, covers, lemma_canonical_drop_first,
    lemma_canonical_drop_last, lemma_canonical_push_front, lemma_covers_single,
};
use super::endpoint::{gap_between, Endpoint};
use super::interval::Interval;
use crate::order::is_total_order;
use vstd::prelude::*;

verus! {

broadcast use Interval::lemma_ends;

/// The canonical sequence `s` with the interval `x` added: the intervals
/// of `s` that lie entirely before or after `x` stay as they are, and the
/// others are merged with `x` into one interval at their place.
pub open spec fn inserted<T: PartialOrd + Clone>(s: Seq<Interval<T>>, x: Interval<T>) -> Seq<
    Interval<T>,
>
    decreases s.len(),
{
    if s.len() == 0 {
        seq![x]
    } else if s[0].lies_before(x) {
        seq![s[0]] + inserted(s.drop_first(), x)
    } else if x.lies_before(s[0]) {
        seq![x] + s
    } else {
        inserted(s.drop_first(), x.hull(s[0]))
    }
}

/// The canonical sequence `a` with the intervals of `b` added one after
/// the other.
pub open spec fn united<T: PartialOrd + Clone>(a: Seq<Interval<T>>, b: Seq<Interval<T>>) -> Seq<
    Interval<T>,
>
    decreases b.len(),
{
    if b.len() == 0 {
        a
    } else {
        inserted(united(a, b.drop_last()), b.last())
    }
}

/// Adding an interval to a canonical sequence gives a canonical sequence
/// that covers the points of the sequence and those of the interval, and
/// begins no earlier than the two do.
pub proof fn lemma_inserted<T: PartialOrd + Clone>(s: Seq<Interval<T>>, x: Interval<T>)
    requires
        is_total_order::<T>(),
        canonical(s),
        x.wf(),
    ensures
        canonical(inserted(s, x)),
        covered(inserted(s, x)) == covered(s).union(x@),
        forall|right: Endpoint<T>|
            begins_after(s, right) && gap_between(right, x.left_end()) ==> #[trigger] begins_after(
                inserted(s, x),
                right,
            ),
    decreases s.len(),
{
    let r = inserted(s, x);
    if s.len() == 0 {
        assert forall|p: T| covers(r, p) <==> covers(s, p) || x.contains_point(p) by {
            lemma_covers_single(x, p);
        }
    } else {
        let rest = s.drop_first();
        lemma_canonical_drop_first(s);
        if s[0].lies_before(x) {
            // The first interval stays in front of what the rest becomes.
            let tail = inserted(rest, x);
            lemma_inserted(rest, x);
            lemma_canonical_push_front(Some(s[0]), tail);
            assert forall|p: T| covers(r, p) <==> covers(s, p) || x.contains_point(p) by {
                assert(covered(tail).contains(p) <==> covered(rest).union(x@).contains(p));
            }
        } else if x.lies_before(s[0]) {
            // The new interval goes in front of everything.
            assert(begins_after(s, x.right_end())) by {
                assert forall|i: int| 0 <= i < s.len() implies gap_between(
                    x.right_end(),
                    (#[trigger] s[i]).left_end(),
                ) by {
                    assert(s[0].wf());
                    if i > 0 {
                        assert(s[0].lies_before(s[i]));
                    }
                }
            }
            lemma_canonical_push_front(Some(x), s);
        } else {
            // The first interval is taken up into the new one.
            let h = x.hull(s[0]);
            Interval::lemma_hull(x, s[0]);
            lemma_inserted(rest, h);
            assert forall|p: T| covers(r, p) <==> covers(s, p) || x.contains_point(p) by {
                assert(covered(r).contains(p) <==> covered(rest).union(h@).contains(p));
                assert(h@.contains(p) <==> x@.union(s[0]@).contains(p));
            }
            assert forall|right: Endpoint<T>|
                begins_after(s, right) && gap_between(right, x.left_end())
                implies #[trigger] begins_after(r, right) by {
                assert(gap_between(right, s[0].left_end()));
                assert(gap_between(right, h.left_end()));
            }
        }
    }
    assert(covered(r) =~= covered(s).union(x@));
}

/// Adding the intervals of one canonical sequence to another gives a
/// canonical sequence that covers the points of both.
pub proof fn lemma_united<T: PartialOrd + Clone>(a: Seq<Interval<T>>, b: Seq<Interval<T>>)
    requires
        is_total_order::<T>(),
        canonical(a),
        canonical(b),
    ensures
        canonical(united(a, b)),
        covered(united(a, b)) == covered(a).union(covered(b)),
    decreases b.len(),
{
    let r = united(a, b);
    if b.len() == 0 {
        assert(covered(b) =~= Set::empty());
    } else {
        lemma_canonical_drop_last(b);
        lemma_united(a, b.drop_last());
        lemma_inserted(united(a, b.drop_last()), b.last());
    }
    assert(covered(r) =~= covered(a).union(covered(b)));
}

} // verus!
