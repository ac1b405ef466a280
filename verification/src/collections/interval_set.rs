//! Intervals over a totally ordered domain and canonical sets of them.

pub mod canonical;
pub mod complement;
pub mod endpoint;
pub mod error;
pub mod intersection;
pub mod interval;
pub mod laws;
pub mod union;

pub use endpoint::Endpoint;
pub use error::{IntervalSetError, IntervalSetResult};
pub use interval::Interval;

use crate::order::{clones_exactly, is_total_order, le, lt};
use canonical::{canonical, covered, covers, lemma_covers_single, seq_of};
use complement::{complemented, lemma_complemented};
use intersection::{intersected, lemma_intersected};
use union::{inserted, lemma_inserted, lemma_united, united};
use vstd::prelude::*;

verus! {

/// A subset of a totally ordered domain, held as the ascending sequence
/// of the separated intervals that make it up.
///
/// Intervals that overlap or touch are merged as they come in, so a set
/// never holds two intervals that one interval could replace: every set
/// that a constructor or an operation returns satisfies
/// [`IntervalSet::wf`].
#[derive(Debug, PartialEq)]
pub struct IntervalSet<T: PartialOrd + Clone> {
    intervals: Vec<Interval<T>>,
}

/// A set is viewed as the set of the points that its intervals hold.
impl<T: PartialOrd + Clone> View for IntervalSet<T> {
    type V = Set<T>;

    open spec fn view(&self) -> Set<T> {
        covered(self.intervals())
    }
}

impl<T: PartialOrd + Clone> IntervalSet<T> {
    /// The intervals of the set, in ascending order.
    pub closed spec fn intervals(self) -> Seq<Interval<T>> {
        self.intervals@
    }

    /// The intervals are valid, ascending and separated from each other.
    pub open spec fn wf(self) -> bool {
        canonical(self.intervals())
    }

    /// Creates the set without points.
    pub fn empty() -> (res: Self)
        ensures
            res.intervals() == Seq::<Interval<T>>::empty(),
            res.wf(),
            res@ == Set::<T>::empty(),
    {
        let res = Self { intervals: Vec::new() };
        assert(res@ =~= Set::<T>::empty());
        res
    }

    /// Creates the set of the points of the open interval `(left_value,
    /// right_value)`.
    pub fn open(left_value: T, right_value: T) -> (res: IntervalSetResult<Self>)
        requires
            is_total_order::<T>(),
        ensures
            match res {
                Ok(set) => lt(left_value, right_value) && set.wf() && set.intervals() == seq![
                    Interval::from_ends(Endpoint::Open(left_value), Endpoint::Open(right_value)),
                ],
                Err(e) => !lt(left_value, right_value) && e == IntervalSetError::InvalidInterval,
            },
    {
        let interval = Interval::open(left_value, right_value);
        match interval {
            Ok(interval) => {
                proof {
                    interval.lemma_from_own_ends();
                }
                Ok(Self::from(interval))
            },
            Err(error) => Err(error),
        }
    }

    /// Creates the set of the points of the closed interval
    /// `[left_value, right_value]`.
    pub fn closed(left_value: T, right_value: T) -> (res: IntervalSetResult<Self>)
        requires
            is_total_order::<T>(),
        ensures
            match res {
                Ok(set) => le(left_value, right_value) && set.wf() && set.intervals() == seq![
                    Interval::from_ends(
                        Endpoint::Closed(left_value),
                        Endpoint::Closed(right_value),
                    ),
                ],
                Err(e) => !le(left_value, right_value) && e == IntervalSetError::InvalidInterval,
            },
    {
        let interval = Interval::closed(left_value, right_value);
        match interval {
            Ok(interval) => {
                proof {
                    interval.lemma_from_own_ends();
                }
                Ok(Self::from(interval))
            },
            Err(error) => Err(error),
        }
    }

    /// Creates the set of the points of the left-open, right-closed
    /// interval `(left_value, right_value]`.
    pub fn open_closed(left_value: T, right_value: T) -> (res: IntervalSetResult<Self>)
        requires
            is_total_order::<T>(),
        ensures
            match res {
                Ok(set) => lt(left_value, right_value) && set.wf() && set.intervals() == seq![
                    Interval::from_ends(Endpoint::Open(left_value), Endpoint::Closed(right_value)),
                ],
                Err(e) => !lt(left_value, right_value) && e == IntervalSetError::InvalidInterval,
            },
    {
        let interval = Interval::open_closed(left_value, right_value);
        match interval {
            Ok(interval) => {
                proof {
                    interval.lemma_from_own_ends();
                }
                Ok(Self::from(interval))
            },
            Err(error) => Err(error),
        }
    }

    /// Creates the set of the points of the left-closed, right-open
    /// interval `[left_value, right_value)`.
    pub fn closed_open(left_value: T, right_value: T) -> (res: IntervalSetResult<Self>)
        requires
            is_total_order::<T>(),
        ensures
            match res {
                Ok(set) => lt(left_value, right_value) && set.wf() && set.intervals() == seq![
                    Interval::from_ends(Endpoint::Closed(left_value), Endpoint::Open(right_value)),
                ],
                Err(e) => !lt(left_value, right_value) && e == IntervalSetError::InvalidInterval,
            },
    {
        let interval = Interval::closed_open(left_value, right_value);
        match interval {
            Ok(interval) => {
                proof {
                    interval.lemma_from_own_ends();
                }
                Ok(Self::from(interval))
            },
            Err(error) => Err(error),
        }
    }

    /// Creates the set of the points of `(-∞, right_value)`.
    pub fn unbounded_open(right_value: T) -> (res: Self)
        ensures
            res.wf(),
            res.intervals() == seq![
                Interval::from_ends(Endpoint::Unbounded, Endpoint::Open(right_value)),
            ],
    {
        let interval = Interval::unbounded_open(right_value);
        proof {
            interval.lemma_from_own_ends();
        }
        Self::from(interval)
    }

    /// Creates the set of the points of `(-∞, right_value]`.
    pub fn unbounded_closed(right_value: T) -> (res: Self)
        ensures
            res.wf(),
            res.intervals() == seq![
                Interval::from_ends(Endpoint::Unbounded, Endpoint::Closed(right_value)),
            ],
    {
        let interval = Interval::unbounded_closed(right_value);
        proof {
            interval.lemma_from_own_ends();
        }
        Self::from(interval)
    }

    /// Creates the set of the points of `(left_value, +∞)`.
    pub fn open_unbounded(left_value: T) -> (res: Self)
        ensures
            res.wf(),
            res.intervals() == seq![
                Interval::from_ends(Endpoint::Open(left_value), Endpoint::Unbounded),
            ],
    {
        let interval = Interval::open_unbounded(left_value);
        proof {
            interval.lemma_from_own_ends();
        }
        Self::from(interval)
    }

    /// Creates the set of the points of `[left_value, +∞)`.
    pub fn closed_unbounded(left_value: T) -> (res: Self)
        ensures
            res.wf(),
            res.intervals() == seq![
                Interval::from_ends(Endpoint::Closed(left_value), Endpoint::Unbounded),
            ],
    {
        let interval = Interval::closed_unbounded(left_value);
        proof {
            interval.lemma_from_own_ends();
        }
        Self::from(interval)
    }

    /// Gets the intervals of the set, in ascending order.
    pub fn as_slice(&self) -> (res: &[Interval<T>])
        ensures
            res@ == self.intervals(),
    {
        self.intervals.as_slice()
    }

    /// Gets the number of intervals of the set.
    pub fn len(&self) -> (res: usize)
        ensures
            res == self.intervals().len(),
    {
        self.intervals.len()
    }

    /// Checks if the set has no interval, and so no point.
    pub fn is_empty(&self) -> (res: bool)
        ensures
            res == (self.intervals().len() == 0),
    {
        self.intervals.len() == 0
    }

    /// Checks if `x` is a point of the set.
    pub fn contains(&self, x: &T) -> (res: bool)
        requires
            is_total_order::<T>(),
        ensures
            res == self@.contains(*x),
    {
        let mut i: usize = 0;
        while i < self.intervals.len()
            invariant
                is_total_order::<T>(),
                i <= self.intervals.len(),
                forall|k: int| 0 <= k < i ==> !(#[trigger] self.intervals@[k]).contains_point(*x),
            decreases self.intervals.len() - i,
        {
            if self.intervals[i].contains(x) {
                assert(covers(self.intervals@, *x));
                return true;
            }
            i += 1;
        }
        false
    }

    /// Adds an interval to the set: the intervals of the set that are not
    /// separated from it are merged with it into one interval, which
    /// takes their place.
    pub fn union_interval(&self, interval: &Interval<T>) -> (res: Self)
        requires
            is_total_order::<T>(),
            clones_exactly::<T>(),
            self.wf(),
            interval.wf(),
        ensures
            res.intervals() == inserted(self.intervals(), *interval),
            res.wf(),
            res@ == self@.union(interval@),
    {
        let ghost s = self.intervals@;
        let n = self.intervals.len();
        let mut out: Vec<Interval<T>> = Vec::new();
        let mut merged = interval.clone();
        let mut i: usize = 0;
        let mut placed = false;
        assert(s.skip(0) =~= s);
        // Copy the intervals that lie entirely before the incoming one
        // and absorb those that reach it, up to the first that lies
        // entirely after it.
        while i < n && !placed
            invariant
                is_total_order::<T>(),
                clones_exactly::<T>(),
                s == self.intervals@,
                n == s.len(),
                canonical(s),
                i <= n,
                merged.wf(),
                inserted(s, *interval) == out@ + inserted(s.skip(i as int), merged),
                placed ==> i < n && !s[i as int].lies_before(merged) && merged.lies_before(
                    s[i as int],
                ),
            decreases 2 * (n - i) + (if placed { 0int } else { 1int }),
        {
            let current = &self.intervals[i];
            proof {
                let rest = s.skip(i as int);
                assert(rest[0] == s[i as int]);
                assert(rest.drop_first() =~= s.skip(i + 1));
            }
            if merged.is_other_separated_from_this_to_the_left(current) {
                out.push(current.clone());
                i += 1;
                assert(inserted(s, *interval) =~= out@ + inserted(s.skip(i as int), merged));
            } else if merged.is_other_separated_from_this_to_the_right(current) {
                placed = true;
            } else {
                match merged.merge(current) {
                    Ok(hull) => {
                        merged = hull;
                    },
                    Err(_) => {
                        assert(false);
                    },
                }
                i += 1;
            }
        }
        proof {
            let rest = s.skip(i as int);
            if placed {
                assert(rest[0] == s[i as int]);
            }
            assert(inserted(rest, merged) == seq![merged] + rest);
        }
        out.push(merged);
        assert(inserted(s, *interval) =~= out@ + s.skip(i as int));
        // Copy the intervals that lie entirely after it.
        while i < n
            invariant
                clones_exactly::<T>(),
                s == self.intervals@,
                n == s.len(),
                i <= n,
                inserted(s, *interval) == out@ + s.skip(i as int),
            decreases n - i,
        {
            out.push(self.intervals[i].clone());
            i += 1;
            assert(inserted(s, *interval) =~= out@ + s.skip(i as int));
        }
        assert(inserted(s, *interval) =~= out@);
        proof {
            lemma_inserted(s, *interval);
        }
        Self { intervals: out }
    }

    /// Computes the union of two sets: the intervals of the other set are
    /// added to this one, one after the other.
    pub fn union(&self, other: &Self) -> (res: Self)
        requires
            is_total_order::<T>(),
            clones_exactly::<T>(),
            self.wf(),
            other.wf(),
        ensures
            res.intervals() == united(self.intervals(), other.intervals()),
            res.wf(),
            res@ == self@.union(other@),
    {
        let ghost a = self.intervals@;
        let ghost b = other.intervals@;
        let mut res = self.clone();
        let mut i: usize = 0;
        while i < other.intervals.len()
            invariant
                is_total_order::<T>(),
                clones_exactly::<T>(),
                b == other.intervals@,
                canonical(b),
                i <= b.len(),
                res.wf(),
                res.intervals() == united(a, b.take(i as int)),
            decreases b.len() - i,
        {
            res = res.union_interval(&other.intervals[i]);
            proof {
                let next = b.take(i + 1);
                assert(next.drop_last() =~= b.take(i as int));
                assert(next.last() == b[i as int]);
            }
            i += 1;
        }
        proof {
            assert(b.take(i as int) =~= b);
            lemma_united(a, b);
        }
        res
    }

    /// Computes the intersection of two sets: the common parts of their
    /// intervals, found by walking the two ascending sequences together.
    pub fn intersection(&self, other: &Self) -> (res: Self)
        requires
            is_total_order::<T>(),
            clones_exactly::<T>(),
            self.wf(),
            other.wf(),
        ensures
            res.intervals() == intersected(self.intervals(), other.intervals()),
            res.wf(),
            res@ == self@.intersect(other@),
    {
        let ghost a = self.intervals@;
        let ghost b = other.intervals@;
        let mut out: Vec<Interval<T>> = Vec::new();
        let mut i: usize = 0;
        let mut j: usize = 0;
        assert(a.skip(0) =~= a && b.skip(0) =~= b);
        while i < self.intervals.len() && j < other.intervals.len()
            invariant
                is_total_order::<T>(),
                clones_exactly::<T>(),
                a == self.intervals@,
                b == other.intervals@,
                i <= a.len(),
                j <= b.len(),
                intersected(a, b) == out@ + intersected(a.skip(i as int), b.skip(j as int)),
            decreases (a.len() - i) + (b.len() - j),
        {
            let this = &self.intervals[i];
            let that = &other.intervals[j];
            proof {
                assert(a.skip(i as int)[0] == a[i as int]);
                assert(b.skip(j as int)[0] == b[j as int]);
                assert(a.skip(i as int).drop_first() =~= a.skip(i + 1));
                assert(b.skip(j as int).drop_first() =~= b.skip(j + 1));
            }
            let ghost before = out@;
            match this.overlap(that) {
                Some(common) => {
                    out.push(common);
                },
                None => {},
            }
            assert(out@ =~= before + seq_of(a[i as int].common_part(b[j as int])));
            // Leave behind the interval that ends first, or both where
            // they end together.
            let this_first = this.ends_before(that);
            let that_first = that.ends_before(this);
            if !that_first {
                i += 1;
            }
            if !this_first {
                j += 1;
            }
            assert(intersected(a, b) =~= out@ + intersected(a.skip(i as int), b.skip(j as int)));
        }
        assert(intersected(a, b) =~= out@);
        proof {
            lemma_intersected(a, b);
        }
        Self { intervals: out }
    }

    /// Computes the complement of the set: the gaps before, between and
    /// after its intervals. The complement of the empty set is the whole
    /// domain, and the reverse.
    pub fn complement(&self) -> (res: Self)
        requires
            is_total_order::<T>(),
            clones_exactly::<T>(),
            self.wf(),
        ensures
            res.intervals() == complemented(self.intervals()),
            res.wf(),
            res@ == self@.complement(),
    {
        let ghost s = self.intervals@;
        let n = self.intervals.len();
        let mut out: Vec<Interval<T>> = Vec::new();
        if n == 0 {
            let everything = Interval::universe();
            proof {
                everything.lemma_from_own_ends();
            }
            out.push(everything);
            assert(out@ =~= complemented(s));
        } else {
            match self.intervals[0].before() {
                Some(gap) => {
                    out.push(gap);
                },
                None => {},
            }
            assert(out@ =~= seq_of(s[0].rest_before()));
            let mut i: usize = 0;
            while i + 1 < n
                invariant
                    clones_exactly::<T>(),
                    s == self.intervals@,
                    n == s.len(),
                    i < n,
                    out@ == seq_of(s[0].rest_before()) + Seq::new(
                        i as nat,
                        |k: int| s[k].rest_between(s[k + 1]),
                    ),
                decreases n - i,
            {
                out.push(self.intervals[i].between(&self.intervals[i + 1]));
                i += 1;
                assert(out@ =~= seq_of(s[0].rest_before()) + Seq::new(
                    i as nat,
                    |k: int| s[k].rest_between(s[k + 1]),
                ));
            }
            let ghost inner = out@;
            match self.intervals[n - 1].after() {
                Some(gap) => {
                    out.push(gap);
                },
                None => {},
            }
            assert(out@ =~= inner + seq_of(s.last().rest_after()));
        }
        proof {
            lemma_complemented(s);
        }
        Self { intervals: out }
    }
}

/// `a & b` is the intersection of `a` and `b`.
impl<T: PartialOrd + Clone> core::ops::BitAnd for IntervalSet<T> {
    type Output = Self;

    fn bitand(self, rhs: Self) -> (res: Self)
        ensures
            res.intervals() == intersected(self.intervals(), rhs.intervals()),
            res.wf(),
            res@ == self@.intersect(rhs@),
    {
        self.intersection(&rhs)
    }
}

/// What `&` demands of its operands. No function on sets names its
/// result: the contract of `bitand` states it through the intervals.
impl<T: PartialOrd + Clone> vstd::std_specs::ops::BitAndSpecImpl for IntervalSet<T> {
    open spec fn obeys_bitand_spec() -> bool {
        false
    }

    open spec fn bitand_req(self, rhs: Self) -> bool {
        is_total_order::<T>() && clones_exactly::<T>() && self.wf() && rhs.wf()
    }

    open spec fn bitand_spec(self, rhs: Self) -> Self {
        arbitrary()
    }
}

/// `a | b` is the union of `a` and `b`.
impl<T: PartialOrd + Clone> core::ops::BitOr for IntervalSet<T> {
    type Output = Self;

    fn bitor(self, rhs: Self) -> (res: Self)
        ensures
            res.intervals() == united(self.intervals(), rhs.intervals()),
            res.wf(),
            res@ == self@.union(rhs@),
    {
        self.union(&rhs)
    }
}

/// What `|` demands of its operands. No function on sets names its
/// result: the contract of `bitor` states it through the intervals.
impl<T: PartialOrd + Clone> vstd::std_specs::ops::BitOrSpecImpl for IntervalSet<T> {
    open spec fn obeys_bitor_spec() -> bool {
        false
    }

    open spec fn bitor_req(self, rhs: Self) -> bool {
        is_total_order::<T>() && clones_exactly::<T>() && self.wf() && rhs.wf()
    }

    open spec fn bitor_spec(self, rhs: Self) -> Self {
        arbitrary()
    }
}

/// The set of the points of one interval.
impl<T: PartialOrd + Clone> From<Interval<T>> for IntervalSet<T> {
    fn from(interval: Interval<T>) -> (res: Self)
        ensures
            res.intervals() == seq![interval],
            interval.wf() ==> res.wf(),
            res@ == interval@,
    {
        let mut intervals = Vec::new();
        intervals.push(interval);
        let res = Self { intervals };
        assert(res.intervals() =~= seq![interval]);
        assert forall|x: T| res@.contains(x) <==> interval@.contains(x) by {
            lemma_covers_single(interval, x);
        }
        assert(res@ =~= interval@);
        res
    }
}

/// No function on sets names the result of `from`: its contract states
/// it through the intervals.
impl<T: PartialOrd + Clone> vstd::std_specs::convert::FromSpecImpl<Interval<T>> for IntervalSet<T> {
    open spec fn obeys_from_spec() -> bool {
        false
    }

    open spec fn from_spec(interval: Interval<T>) -> Self {
        arbitrary()
    }
}

impl<T: PartialOrd + Clone> Clone for IntervalSet<T> {
    fn clone(&self) -> (res: Self)
        ensures
            clones_exactly::<T>() ==> res.intervals() == self.intervals(),
    {
        let mut intervals: Vec<Interval<T>> = Vec::new();
        let mut i: usize = 0;
        while i < self.intervals.len()
            invariant
                i <= self.intervals.len(),
                clones_exactly::<T>() ==> intervals@ == self.intervals@.take(i as int),
            decreases self.intervals.len() - i,
        {
            intervals.push(self.intervals[i].clone());
            i += 1;
            assert(clones_exactly::<T>() ==> intervals@ =~= self.intervals@.take(i as int));
        }
        assert(self.intervals@.take(i as int) =~= self.intervals@);
        Self { intervals }
    }
}

} // verus!
