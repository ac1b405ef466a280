//! Complement on canonical sequences.

use super::canonical::{canonical, covered, covers, seq_of};
use super::endpoint::{right_admits, Endpoint};
use super::interval::Interval;
use crate::order::is_total_order;
use vstd::prelude::*;

verus! {

broadcast use Interval::lemma_ends;

/// The gaps that a canonical sequence leaves, in ascending order: what
/// lies before its first interval, between each two neighbours, and after
/// its last interval. Where a gap meets an interval, the boundary that
/// the interval includes is excluded from the gap, and the reverse. The
/// empty sequence leaves everything.
pub open spec fn complemented<T: PartialOrd + Clone>(s: Seq<Interval<T>>) -> Seq<Interval<T>> {
    if s.len() == 0 {
        seq![Interval::from_ends(Endpoint::Unbounded, Endpoint::Unbounded)]
    } else {
        seq_of(s[0].rest_before()) + Seq::new(
            (s.len() - 1) as nat,
            |i: int| s[i].rest_between(s[i + 1]),
        ) + seq_of(s.last().rest_after())
    }
}

/// The gap that a sequence leaves after its interval at index `u` and
/// before the next one; `u` is `-1` for the gap before the first
/// interval.
spec fn gap_after<T: PartialOrd + Clone>(s: Seq<Interval<T>>, u: int) -> Interval<T> {
    Interval::from_ends(
        if u < 0 {
            Endpoint::Unbounded
        } else {
            s[u].right_end().flipped()
        },
        if u + 1 >= s.len() {
            Endpoint::Unbounded
        } else {
            s[u + 1].left_end().flipped()
        },
    )
}

/// The index in `complemented(s)` of the gap after the first interval of
/// `s`: 1 where a gap before that interval comes first, else 0.
spec fn first_gap<T: PartialOrd + Clone>(s: Seq<Interval<T>>) -> int {
    if s[0].left_end() is Unbounded {
        0
    } else {
        1
    }
}

/// The sequence `s` leaves a gap after its interval at index `u`, or
/// before its first interval where `u` is `-1`: `u` is in range, and the
/// first and the last interval are bounded where the gap lies outside
/// them.
spec fn has_gap_after<T: PartialOrd + Clone>(s: Seq<Interval<T>>, u: int) -> bool {
    &&& s.len() > 0
    &&& -first_gap(s) <= u < s.len()
    &&& u == s.len() - 1 ==> !(s.last().right_end() is Unbounded)
}

/// The number of intervals at the front of `s` that end before the point
/// `x`.
spec fn passed<T: PartialOrd + Clone>(s: Seq<Interval<T>>, x: T) -> int
    decreases s.len(),
{
    if s.len() == 0 || right_admits(s[0].right_end(), x) {
        0
    } else {
        1 + passed(s.drop_first(), x)
    }
}

/// The gaps of a sequence, by their place among them.
proof fn lemma_complemented_gaps<T: PartialOrd + Clone>(s: Seq<Interval<T>>)
    requires
        s.len() > 0,
    ensures
        complemented(s).len() == first_gap(s) + s.len() - 1 + seq_of(s.last().rest_after()).len(),
        forall|k: int|
            0 <= k < complemented(s).len() ==> #[trigger] complemented(s)[k] == gap_after(
                s,
                k - first_gap(s),
            ) && has_gap_after(s, k - first_gap(s)),
{
    let r = complemented(s);
    let n = s.len() as int;
    let first = seq_of(s[0].rest_before());
    let middle = Seq::new((n - 1) as nat, |i: int| s[i].rest_between(s[i + 1]));
    let last = seq_of(s.last().rest_after());
    let f = first_gap(s);
    assert(r == first + middle + last);
    assert forall|k: int| 0 <= k < r.len() implies #[trigger] r[k] == gap_after(s, k - f)
        && has_gap_after(s, k - f) by {
        if k < f {
            assert(r[k] == first[0]);
        } else if k < f + n - 1 {
            assert(r[k] == middle[k - f]);
        } else {
            assert(r[k] == last[0]);
        }
    }
}

/// A gap of a canonical sequence is a valid interval.
proof fn lemma_gap_valid<T: PartialOrd + Clone>(s: Seq<Interval<T>>, u: int)
    requires
        is_total_order::<T>(),
        canonical(s),
        -1 <= u < s.len(),
    ensures
        gap_after(s, u).wf(),
{
    if 0 <= u && u + 1 < s.len() {
        assert(s[u].lies_before(s[u + 1]));
    }
}

/// An earlier gap of a canonical sequence lies entirely before a later
/// one, with one interval or more in between.
proof fn lemma_gaps_apart<T: PartialOrd + Clone>(s: Seq<Interval<T>>, u: int, v: int)
    requires
        is_total_order::<T>(),
        canonical(s),
        has_gap_after(s, u),
        has_gap_after(s, v),
        u < v,
    ensures
        gap_after(s, u).lies_before(gap_after(s, v)),
{
    assert(s[u + 1].wf() && s[v].wf());
    if u + 1 < v {
        assert(s[u + 1].lies_before(s[v]));
    }
}

/// No interval of a canonical sequence holds a point of one of its gaps.
proof fn lemma_gap_excludes<T: PartialOrd + Clone>(s: Seq<Interval<T>>, u: int, i: int, x: T)
    requires
        is_total_order::<T>(),
        canonical(s),
        has_gap_after(s, u),
        0 <= i < s.len(),
        gap_after(s, u).contains_point(x),
    ensures
        !s[i].contains_point(x),
{
    assert(s[i].wf());
    if i <= u {
        assert(s[u].wf());
        if i < u {
            assert(s[i].lies_before(s[u]));
        }
    } else {
        assert(s[u + 1].wf());
        if u + 1 < i {
            assert(s[u + 1].lies_before(s[i]));
        }
    }
}

/// The intervals that end before `x` are those at the front of the
/// sequence, up to the first that does not.
proof fn lemma_passed<T: PartialOrd + Clone>(s: Seq<Interval<T>>, x: T)
    ensures
        0 <= passed(s, x) <= s.len(),
        forall|i: int| 0 <= i < passed(s, x) ==> !right_admits((#[trigger] s[i]).right_end(), x),
        passed(s, x) < s.len() ==> right_admits(s[passed(s, x)].right_end(), x),
    decreases s.len(),
{
    if s.len() == 0 || right_admits(s[0].right_end(), x) {
    } else {
        let rest = s.drop_first();
        lemma_passed(rest, x);
        assert forall|i: int| 0 <= i < passed(s, x) implies !right_admits(
            (#[trigger] s[i]).right_end(),
            x,
        ) by {
            if i > 0 {
                assert(s[i] == rest[i - 1]);
            }
        }
        if passed(s, x) < s.len() {
            assert(s[passed(s, x)] == rest[passed(rest, x)]);
        }
    }
}

/// A point that no interval of a sequence holds lies in the gap after the
/// intervals that end before it.
proof fn lemma_gap_holds<T: PartialOrd + Clone>(s: Seq<Interval<T>>, x: T)
    requires
        is_total_order::<T>(),
        s.len() > 0,
        !covers(s, x),
    ensures
        has_gap_after(s, passed(s, x) - 1),
        passed(s, x) - 1 + first_gap(s) < complemented(s).len(),
        gap_after(s, passed(s, x) - 1).contains_point(x),
{
    lemma_passed(s, x);
    lemma_complemented_gaps(s);
    let u = passed(s, x) - 1;
    if u >= 0 {
        assert(!right_admits(s[u].right_end(), x));
    }
    if u + 1 < s.len() {
        assert(!s[u + 1].contains_point(x));
    }
}

/// The gaps of a canonical sequence form a canonical sequence that
/// covers the points that the sequence does not cover.
pub proof fn lemma_complemented<T: PartialOrd + Clone>(s: Seq<Interval<T>>)
    requires
        is_total_order::<T>(),
        canonical(s),
    ensures
        canonical(complemented(s)),
        covered(complemented(s)) == covered(s).complement(),
{
    let r = complemented(s);
    if s.len() == 0 {
        assert forall|p: T| covers(r, p) <==> !covers(s, p) by {
            assert(r[0].contains_point(p));
        }
    } else {
        let f = first_gap(s);
        lemma_complemented_gaps(s);
        assert forall|k: int| 0 <= k < r.len() implies (#[trigger] r[k]).wf() by {
            lemma_gap_valid(s, k - f);
        }
        assert forall|k: int, m: int| 0 <= k < m < r.len() implies (#[trigger] r[k]).lies_before(
            #[trigger] r[m],
        ) by {
            lemma_gaps_apart(s, k - f, m - f);
        }
        assert forall|p: T| covers(r, p) <==> !covers(s, p) by {
            if covers(r, p) {
                let k = choose|k: int| 0 <= k < r.len() && (#[trigger] r[k]).contains_point(p);
                assert forall|i: int| 0 <= i < s.len() implies !(#[trigger] s[i]).contains_point(
                    p,
                ) by {
                    lemma_gap_excludes(s, k - f, i, p);
                }
            }
            if !covers(s, p) {
                lemma_gap_holds(s, p);
                assert(r[passed(s, p) - 1 + f].contains_point(p));
            }
        }
    }
    assert(covered(r) =~= covered(s).complement());
}

} // verus!
