//! Laws of the interval algebra: what holds of every interval and of
//! every canonical sequence, whichever operations produced them.

use super::canonical::{canonical, covered};
use super::endpoint::{left_precedes, right_precedes, Endpoint};
use super::intersection::{intersected, lemma_intersected};
use super::interval::Interval;
use super::union::{inserted, lemma_united, united};
use crate::order::is_total_order;
use vstd::prelude::*;

verus! {

broadcast use Interval::lemma_ends;

/// Separation is symmetric: if one interval is separated from another,
/// the other is separated from it.
pub proof fn lemma_separation_symmetric<T: PartialOrd + Clone>(a: Interval<T>, b: Interval<T>)
    ensures
        a.separated(b) == b.separated(a),
{
}

/// Separated intervals share no point, even where the boundary values of
/// one of them are added to it.
pub proof fn lemma_separated_apart<T: PartialOrd + Clone>(a: Interval<T>, b: Interval<T>)
    requires
        is_total_order::<T>(),
        a.separated(b),
    ensures
        a.closure()@.disjoint(b@),
        a@.disjoint(b.closure()@),
{
}

/// Any two intervals of a canonical sequence are separated: none of them
/// could be merged with another.
pub proof fn lemma_canonical_separated<T: PartialOrd + Clone>(
    s: Seq<Interval<T>>,
    i: int,
    j: int,
)
    requires
        canonical(s),
        0 <= i < s.len(),
        0 <= j < s.len(),
        i != j,
    ensures
        s[i].separated(s[j]),
{
    if i < j {
        assert(s[i].lies_before(s[j]));
    } else {
        assert(s[j].lies_before(s[i]));
    }
}

/// The intervals of a canonical sequence ascend strictly by their left
/// endpoints, and by their right endpoints too.
pub proof fn lemma_canonical_ascending<T: PartialOrd + Clone>(s: Seq<Interval<T>>, i: int, j: int)
    requires
        is_total_order::<T>(),
        canonical(s),
        0 <= i < j < s.len(),
    ensures
        left_precedes(s[i].left_end(), s[j].left_end()),
        right_precedes(s[i].right_end(), s[j].right_end()),
{
    assert(s[i].wf() && s[j].wf());
    assert(s[i].lies_before(s[j]));
}

/// Union is commutative on the points: the union of `a` with `b` and the
/// union of `b` with `a` cover the same points.
pub proof fn lemma_union_commutative<T: PartialOrd + Clone>(
    a: Seq<Interval<T>>,
    b: Seq<Interval<T>>,
)
    requires
        is_total_order::<T>(),
        canonical(a),
        canonical(b),
    ensures
        covered(united(a, b)) == covered(united(b, a)),
{
    lemma_united(a, b);
    lemma_united(b, a);
    assert(covered(a).union(covered(b)) =~= covered(b).union(covered(a)));
}

/// Union is associative on the points: however three sequences are
/// grouped, their union covers the same points.
pub proof fn lemma_union_associative<T: PartialOrd + Clone>(
    a: Seq<Interval<T>>,
    b: Seq<Interval<T>>,
    c: Seq<Interval<T>>,
)
    requires
        is_total_order::<T>(),
        canonical(a),
        canonical(b),
        canonical(c),
    ensures
        covered(united(united(a, b), c)) == covered(united(a, united(b, c))),
{
    lemma_united(a, b);
    lemma_united(united(a, b), c);
    lemma_united(b, c);
    lemma_united(a, united(b, c));
    assert(covered(a).union(covered(b)).union(covered(c)) =~= covered(a).union(
        covered(b).union(covered(c)),
    ));
}

/// Intersection is commutative on the points.
pub proof fn lemma_intersection_commutative<T: PartialOrd + Clone>(
    a: Seq<Interval<T>>,
    b: Seq<Interval<T>>,
)
    requires
        is_total_order::<T>(),
        canonical(a),
        canonical(b),
    ensures
        covered(intersected(a, b)) == covered(intersected(b, a)),
{
    lemma_intersected(a, b);
    lemma_intersected(b, a);
    assert(covered(a).intersect(covered(b)) =~= covered(b).intersect(covered(a)));
}

/// Intersection is associative on the points.
pub proof fn lemma_intersection_associative<T: PartialOrd + Clone>(
    a: Seq<Interval<T>>,
    b: Seq<Interval<T>>,
    c: Seq<Interval<T>>,
)
    requires
        is_total_order::<T>(),
        canonical(a),
        canonical(b),
        canonical(c),
    ensures
        covered(intersected(intersected(a, b), c)) == covered(intersected(a, intersected(b, c))),
{
    lemma_intersected(a, b);
    lemma_intersected(intersected(a, b), c);
    lemma_intersected(b, c);
    lemma_intersected(a, intersected(b, c));
    assert(covered(a).intersect(covered(b)).intersect(covered(c)) =~= covered(a).intersect(
        covered(b).intersect(covered(c)),
    ));
}

/// The interval of all values.
pub open spec fn universe<T: PartialOrd + Clone>() -> Interval<T> {
    Interval::from_ends(Endpoint::Unbounded, Endpoint::Unbounded)
}

/// Adding the universe to any sequence leaves the universe alone.
pub proof fn lemma_inserted_universe<T: PartialOrd + Clone>(s: Seq<Interval<T>>)
    ensures
        inserted(s, universe::<T>()) == seq![universe::<T>()],
    decreases s.len(),
{
    if s.len() > 0 {
        universe::<T>().hull(s[0]).lemma_from_own_ends();
        lemma_inserted_universe(s.drop_first());
    }
}

/// The union with the universe is the universe, on either side: the
/// result holds the one interval of all values.
pub proof fn lemma_union_with_universe<T: PartialOrd + Clone>(a: Seq<Interval<T>>)
    ensures
        united(a, seq![universe::<T>()]) == seq![universe::<T>()],
        united(seq![universe::<T>()], a) == seq![universe::<T>()],
    decreases a.len(),
{
    let all = seq![universe::<T>()];
    assert(all.drop_last() =~= Seq::empty());
    assert(united(a, all.drop_last()) == a);
    lemma_inserted_universe(a);
    if a.len() > 0 {
        lemma_union_with_universe(a.drop_last());
        let x = a.last();
        x.hull(universe::<T>()).lemma_from_own_ends();
        assert(all.drop_first() =~= Seq::empty());
        assert(inserted(all, x) == inserted(all.drop_first(), x.hull(all[0])));
    }
}

/// The intersection with the empty sequence is empty, on either side.
pub proof fn lemma_intersection_with_empty<T: PartialOrd + Clone>(a: Seq<Interval<T>>)
    ensures
        intersected(a, Seq::empty()) == Seq::<Interval<T>>::empty(),
        intersected(Seq::empty(), a) == Seq::<Interval<T>>::empty(),
{
}

} // verus!
