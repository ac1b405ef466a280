//! Canonical sequences of intervals: each interval valid, and each lying
//! entirely before the later ones, with a gap in between. Such a sequence
//! is ascending, and no two of its intervals can be merged.

use super::endpoint::{gap_between, right_admits, Endpoint};
use super::interval::Interval;
use crate::order::is_total_order;
use vstd::prelude::*;

verus! {

/// Every interval of `s` is valid, and each lies entirely before all the
/// later ones, with a gap in between.
pub open spec fn canonical<T: PartialOrd + Clone>(s: Seq<Interval<T>>) -> bool {
    &&& forall|i: int| 0 <= i < s.len() ==> (#[trigger] s[i]).wf()
    &&& forall|i: int, j: int|
        #![trigger s[i], s[j]]
        0 <= i < j < s.len() ==> s[i].lies_before(s[j])
}

/// Some interval of `s` holds the point `x`.
pub open spec fn covers<T: PartialOrd + Clone>(s: Seq<Interval<T>>, x: T) -> bool {
    exists|i: int| 0 <= i < s.len() && (#[trigger] s[i]).contains_point(x)
}

/// The points that the intervals of `s` hold between them.
pub open spec fn covered<T: PartialOrd + Clone>(s: Seq<Interval<T>>) -> Set<T> {
    Set::new(|x: T| covers(s, x))
}

/// Every interval of `s` begins after a gap behind the right boundary
/// `right`.
pub open spec fn begins_after<T: PartialOrd + Clone>(
    s: Seq<Interval<T>>,
    right: Endpoint<T>,
) -> bool {
    forall|i: int| 0 <= i < s.len() ==> gap_between(right, (#[trigger] s[i]).left_end())
}

/// The sequence of no or one interval that an optional interval stands
/// for.
pub open spec fn seq_of<T: PartialOrd + Clone>(interval: Option<Interval<T>>) -> Seq<
    Interval<T>,
> {
    match interval {
        Some(i) => seq![i],
        None => Seq::empty(),
    }
}

/// A point is covered by a concatenation when one of the parts covers it.
pub proof fn lemma_covers_concat<T: PartialOrd + Clone>(
    a: Seq<Interval<T>>,
    b: Seq<Interval<T>>,
    x: T,
)
    ensures
        covers(a + b, x) <==> covers(a, x) || covers(b, x),
{
    let ab = a + b;
    if covers(a, x) {
        let i = choose|i: int| 0 <= i < a.len() && (#[trigger] a[i]).contains_point(x);
        assert(ab[i] == a[i]);
    }
    if covers(b, x) {
        let i = choose|i: int| 0 <= i < b.len() && (#[trigger] b[i]).contains_point(x);
        assert(ab[a.len() + i] == b[i]);
    }
    if covers(ab, x) {
        let i = choose|i: int| 0 <= i < ab.len() && (#[trigger] ab[i]).contains_point(x);
        if i < a.len() {
            assert(a[i] == ab[i]);
        } else {
            assert(b[i - a.len()] == ab[i]);
        }
    }
}

/// A sequence of one interval covers the points of that interval.
pub proof fn lemma_covers_single<T: PartialOrd + Clone>(a: Interval<T>, x: T)
    ensures
        covers(seq![a], x) <==> a.contains_point(x),
{
    let s = seq![a];
    if a.contains_point(x) {
        assert(s[0].contains_point(x));
    }
}

/// What is left of a canonical sequence without its first interval is
/// canonical and begins after that interval; it covers what the sequence
/// covers but for the points of that interval.
pub proof fn lemma_canonical_drop_first<T: PartialOrd + Clone>(s: Seq<Interval<T>>)
    requires
        canonical(s),
        s.len() > 0,
    ensures
        canonical(s.drop_first()),
        begins_after(s.drop_first(), s[0].right_end()),
        forall|right: Endpoint<T>|
            begins_after(s, right) ==> #[trigger] begins_after(s.drop_first(), right),
        forall|x: T|
            covers(s, x) <==> s[0].contains_point(x) || #[trigger] covers(s.drop_first(), x),
{
    let rest = s.drop_first();
    assert forall|i: int| 0 <= i < rest.len() implies (#[trigger] rest[i]).wf() by {
        assert(rest[i] == s[i + 1]);
    }
    assert forall|i: int, j: int| 0 <= i < j < rest.len() implies (#[trigger] rest[i]).lies_before(
        #[trigger] rest[j],
    ) by {
        assert(rest[i] == s[i + 1] && rest[j] == s[j + 1]);
    }
    assert forall|i: int| 0 <= i < rest.len() implies gap_between(
        s[0].right_end(),
        (#[trigger] rest[i]).left_end(),
    ) by {
        assert(rest[i] == s[i + 1]);
        assert(s[0].lies_before(s[i + 1]));
    }
    assert forall|right: Endpoint<T>| begins_after(s, right) implies #[trigger] begins_after(
        rest,
        right,
    ) by {
        assert forall|i: int| 0 <= i < rest.len() implies gap_between(
            right,
            (#[trigger] rest[i]).left_end(),
        ) by {
            assert(rest[i] == s[i + 1]);
        }
    }
    assert(s =~= seq![s[0]] + rest);
    assert forall|x: T| covers(s, x) <==> s[0].contains_point(x) || #[trigger] covers(rest, x) by {
        lemma_covers_concat(seq![s[0]], rest, x);
        lemma_covers_single(s[0], x);
    }
}

/// What is left of a canonical sequence without its last interval is
/// canonical; it covers what the sequence covers but for the points of
/// that interval.
pub proof fn lemma_canonical_drop_last<T: PartialOrd + Clone>(s: Seq<Interval<T>>)
    requires
        canonical(s),
        s.len() > 0,
    ensures
        canonical(s.drop_last()),
        forall|x: T|
            covers(s, x) <==> #[trigger] covers(s.drop_last(), x) || s.last().contains_point(x),
{
    let front = s.drop_last();
    assert forall|i: int| 0 <= i < front.len() implies (#[trigger] front[i]).wf() by {
        assert(front[i] == s[i]);
    }
    assert forall|i: int, j: int|
        0 <= i < j < front.len() implies (#[trigger] front[i]).lies_before(#[trigger] front[j]) by {
        assert(front[i] == s[i] && front[j] == s[j]);
    }
    assert(s =~= front + seq![s.last()]);
    assert forall|x: T| covers(s, x) <==> #[trigger] covers(front, x) || s.last().contains_point(
        x,
    ) by {
        lemma_covers_concat(front, seq![s.last()], x);
        lemma_covers_single(s.last(), x);
    }
}

/// An optional valid interval in front of a canonical sequence that
/// begins after it gives a canonical sequence.
pub proof fn lemma_canonical_push_front<T: PartialOrd + Clone>(
    head: Option<Interval<T>>,
    rest: Seq<Interval<T>>,
)
    requires
        canonical(rest),
        head matches Some(h) ==> h.wf() && begins_after(rest, h.right_end()),
    ensures
        canonical(seq_of(head) + rest),
        forall|right: Endpoint<T>|
            begins_after(rest, right) && (head matches Some(h) ==> gap_between(right, h.left_end()))
                ==> #[trigger] begins_after(seq_of(head) + rest, right),
        forall|x: T|
            #[trigger] covers(seq_of(head) + rest, x) <==> Interval::points_of(head).contains(x)
                || covers(rest, x),
{
    let first = seq_of(head);
    let r = first + rest;
    let f = first.len() as int;
    assert forall|i: int| 0 <= i < r.len() implies (#[trigger] r[i]).wf() by {
        if i >= f {
            assert(r[i] == rest[i - f]);
        }
    }
    assert forall|i: int, j: int| 0 <= i < j < r.len() implies (#[trigger] r[i]).lies_before(
        #[trigger] r[j],
    ) by {
        assert(r[j] == rest[j - f]);
        if i >= f {
            assert(r[i] == rest[i - f]);
        }
    }
    assert forall|right: Endpoint<T>|
        begins_after(rest, right) && (head matches Some(h) ==> gap_between(right, h.left_end()))
        implies #[trigger] begins_after(r, right) by {
        assert forall|i: int| 0 <= i < r.len() implies gap_between(
            right,
            (#[trigger] r[i]).left_end(),
        ) by {
            if i >= f {
                assert(r[i] == rest[i - f]);
            }
        }
    }
    assert forall|x: T| #[trigger]
        covers(r, x) <==> Interval::points_of(head).contains(x) || covers(rest, x) by {
        lemma_covers_concat(first, rest, x);
        if head is Some {
            lemma_covers_single(head->0, x);
        }
    }
}

/// No interval that begins after a gap behind `right` holds a point that
/// `right` admits.
pub proof fn lemma_begins_after_excludes<T: PartialOrd + Clone>(
    s: Seq<Interval<T>>,
    right: Endpoint<T>,
    x: T,
)
    requires
        is_total_order::<T>(),
        begins_after(s, right),
        right_admits(right, x),
    ensures
        !covers(s, x),
{
}

} // verus!
