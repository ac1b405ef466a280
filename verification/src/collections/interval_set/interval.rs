//! One contiguous range of a totally ordered domain.

use super::endpoint::{
    gap_between, inner_left, inner_right, left_admits, outer_left, outer_right, right_admits,
    right_precedes, valid_bounds, Endpoint,
};
use super::error::{IntervalSetError, IntervalSetResult};
use crate::order::{clones_exactly, is_total_order, le, lt};
use vstd::prelude::*;

verus! {

/// A range bounded by a left and a right endpoint.
///
/// The endpoints are checked when the interval is built and never change
/// afterwards: every interval that a constructor returns satisfies
/// [`Interval::wf`].
#[derive(Debug, PartialEq)]
pub struct Interval<T: PartialOrd + Clone> {
    /// Left endpoint.
    left: Endpoint<T>,
    /// Right endpoint.
    right: Endpoint<T>,
}

/// An interval is viewed as the set of its points.
impl<T: PartialOrd + Clone> View for Interval<T> {
    type V = Set<T>;

    open spec fn view(&self) -> Set<T> {
        Set::new(|x: T| self.contains_point(x))
    }
}

// What an interval is.
impl<T: PartialOrd + Clone> Interval<T> {
    /// The left endpoint.
    pub closed spec fn left_end(self) -> Endpoint<T> {
        self.left
    }

    /// The right endpoint.
    pub closed spec fn right_end(self) -> Endpoint<T> {
        self.right
    }

    /// The interval with the given endpoints.
    pub closed spec fn from_ends(left: Endpoint<T>, right: Endpoint<T>) -> Interval<T> {
        Interval { left, right }
    }

    /// The endpoints bound an interval.
    pub open spec fn wf(self) -> bool {
        valid_bounds(self.left_end(), self.right_end())
    }

    /// `x` is a point of the interval.
    pub open spec fn contains_point(self, x: T) -> bool {
        left_admits(self.left_end(), x) && right_admits(self.right_end(), x)
    }

    /// The points of an interval that may be absent.
    pub open spec fn points_of(interval: Option<Interval<T>>) -> Set<T> {
        match interval {
            Some(i) => i@,
            None => Set::empty(),
        }
    }

    /// The interval with its boundary values added.
    pub open spec fn closure(self) -> Interval<T> {
        Self::from_ends(self.left_end().closure(), self.right_end().closure())
    }

    /// `self` lies entirely before `later`, with a gap between the two.
    pub open spec fn lies_before(self, later: Interval<T>) -> bool {
        gap_between(self.right_end(), later.left_end())
    }

    /// `self` and `other` are separated: one of them lies entirely before
    /// the other, with a gap between the two.
    pub open spec fn separated(self, other: Interval<T>) -> bool {
        other.lies_before(self) || self.lies_before(other)
    }

    /// The smallest interval that covers both `self` and `other`.
    pub open spec fn hull(self, other: Interval<T>) -> Interval<T> {
        Self::from_ends(
            outer_left(self.left_end(), other.left_end()),
            outer_right(self.right_end(), other.right_end()),
        )
    }

    /// The interval of the points that `self` and `other` share: it begins
    /// and ends where the two boundaries that admit less lie, if those
    /// bound an interval.
    pub open spec fn common_part(self, other: Interval<T>) -> Option<Interval<T>> {
        let left = inner_left(self.left_end(), other.left_end());
        let right = inner_right(self.right_end(), other.right_end());
        if valid_bounds(left, right) {
            Some(Self::from_ends(left, right))
        } else {
            None
        }
    }

    /// The interval of everything before `self`, if `self` is bounded on
    /// the left.
    pub open spec fn rest_before(self) -> Option<Interval<T>> {
        if self.left_end() is Unbounded {
            None
        } else {
            Some(Self::from_ends(Endpoint::Unbounded, self.left_end().flipped()))
        }
    }

    /// The interval of everything after `self`, if `self` is bounded on
    /// the right.
    pub open spec fn rest_after(self) -> Option<Interval<T>> {
        if self.right_end() is Unbounded {
            None
        } else {
            Some(Self::from_ends(self.right_end().flipped(), Endpoint::Unbounded))
        }
    }

    /// The interval of everything after `self` and before `later`.
    pub open spec fn rest_between(self, later: Interval<T>) -> Interval<T> {
        Self::from_ends(self.right_end().flipped(), later.left_end().flipped())
    }

    /// The canonical notation of the interval, given the texts of its two
    /// values: a round bracket at an open or unbounded side, a square one
    /// at a closed side, `-∞` and `+∞` at the unbounded sides, and `[a]`
    /// for the single point `a`. The text of an unbounded side is not
    /// used.
    pub open spec fn notation(self, low_text: Seq<char>, high_text: Seq<char>) -> Seq<char> {
        if self.left_end() is Closed && self.right_end() == self.left_end() {
            "["@ + low_text + "]"@
        } else {
            let left_text = match self.left_end() {
                Endpoint::Open(_) => "("@ + low_text,
                Endpoint::Closed(_) => "["@ + low_text,
                Endpoint::Unbounded => "(-∞"@,
            };
            let right_text = match self.right_end() {
                Endpoint::Open(_) => high_text + ")"@,
                Endpoint::Closed(_) => high_text + "]"@,
                Endpoint::Unbounded => "+∞)"@,
            };
            left_text + ", "@ + right_text
        }
    }

    /// An interval is fixed by its two endpoints.
    pub broadcast proof fn lemma_ends(left: Endpoint<T>, right: Endpoint<T>)
        ensures
            #![trigger Self::from_ends(left, right)]
            Self::from_ends(left, right).left_end() == left,
            Self::from_ends(left, right).right_end() == right,
    {
    }

    /// An interval is the interval with its endpoints.
    pub proof fn lemma_from_own_ends(self)
        ensures
            self == Self::from_ends(self.left_end(), self.right_end()),
    {
    }

    /// The hull of two valid intervals that are not separated is valid
    /// and holds exactly the points of the two.
    pub proof fn lemma_hull(a: Interval<T>, b: Interval<T>)
        requires
            is_total_order::<T>(),
            a.wf(),
            b.wf(),
            !a.separated(b),
        ensures
            a.hull(b).wf(),
            a.hull(b)@ == a@.union(b@),
    {
        let h = a.hull(b);
        assert forall|x: T| h.contains_point(x) == (a.contains_point(x) || b.contains_point(
            x,
        )) by {}
        assert(h@ =~= a@.union(b@));
    }

    /// The common part of two intervals holds exactly the points that
    /// both hold.
    pub proof fn lemma_common_part(a: Interval<T>, b: Interval<T>)
        requires
            is_total_order::<T>(),
        ensures
            Self::points_of(a.common_part(b)) == a@.intersect(b@),
    {
        let c = a.common_part(b);
        assert forall|x: T|
            Self::points_of(c).contains(x) == (a.contains_point(x) && b.contains_point(x)) by {}
        assert(Self::points_of(c) =~= a@.intersect(b@));
    }
}

// Construction.
impl<T: PartialOrd + Clone> Interval<T> {
    /// Creates an interval from its two endpoints, or reports that they do
    /// not bound one.
    pub fn new(left: Endpoint<T>, right: Endpoint<T>) -> (res: IntervalSetResult<Self>)
        requires
            is_total_order::<T>(),
        ensures
            match res {
                Ok(interval) => {
                    &&& valid_bounds(left, right)
                    &&& interval.left_end() == left
                    &&& interval.right_end() == right
                    &&& interval.wf()
                },
                Err(e) => !valid_bounds(left, right) && e == IntervalSetError::InvalidInterval,
            },
    {
        let valid = match (&left, &right) {
            (Endpoint::Open(low), Endpoint::Open(high))
            | (Endpoint::Open(low), Endpoint::Closed(high))
            | (Endpoint::Closed(low), Endpoint::Open(high)) => low < high,
            // Both closed: the two values may coincide, and the interval
            // is then a single point.
            (Endpoint::Closed(low), Endpoint::Closed(high)) => low <= high,
            // Unbounded on either side: nothing to compare.
            (Endpoint::Unbounded, _) => true,
            (_, Endpoint::Unbounded) => true,
        };
        if valid {
            Ok(Self { left, right })
        } else {
            Err(IntervalSetError::InvalidInterval)
        }
    }

    /// Creates the open interval `(low, high)`.
    pub fn open(low: T, high: T) -> (res: IntervalSetResult<Self>)
        requires
            is_total_order::<T>(),
        ensures
            match res {
                Ok(interval) => {
                    &&& lt(low, high)
                    &&& interval.left_end() == Endpoint::Open(low)
                    &&& interval.right_end() == Endpoint::Open(high)
                    &&& interval.wf()
                },
                Err(e) => !lt(low, high) && e == IntervalSetError::InvalidInterval,
            },
    {
        // The left value must be strictly below the right value.
        if low < high {
            Ok(Self { left: Endpoint::Open(low), right: Endpoint::Open(high) })
        } else {
            Err(IntervalSetError::InvalidInterval)
        }
    }

    /// Creates the closed interval `[low, high]`, which is a single point
    /// where the two values coincide.
    pub fn closed(low: T, high: T) -> (res: IntervalSetResult<Self>)
        requires
            is_total_order::<T>(),
        ensures
            match res {
                Ok(interval) => {
                    &&& le(low, high)
                    &&& interval.left_end() == Endpoint::Closed(low)
                    &&& interval.right_end() == Endpoint::Closed(high)
                    &&& interval.wf()
                },
                Err(e) => !le(low, high) && e == IntervalSetError::InvalidInterval,
            },
    {
        // The left value must be below or equal to the right value.
        if low <= high {
            Ok(Self { left: Endpoint::Closed(low), right: Endpoint::Closed(high) })
        } else {
            Err(IntervalSetError::InvalidInterval)
        }
    }

    /// Creates the left-open, right-closed interval `(low, high]`.
    pub fn open_closed(low: T, high: T) -> (res: IntervalSetResult<Self>)
        requires
            is_total_order::<T>(),
        ensures
            match res {
                Ok(interval) => {
                    &&& lt(low, high)
                    &&& interval.left_end() == Endpoint::Open(low)
                    &&& interval.right_end() == Endpoint::Closed(high)
                    &&& interval.wf()
                },
                Err(e) => !lt(low, high) && e == IntervalSetError::InvalidInterval,
            },
    {
        if low < high {
            Ok(Self { left: Endpoint::Open(low), right: Endpoint::Closed(high) })
        } else {
            Err(IntervalSetError::InvalidInterval)
        }
    }

    /// Creates the left-closed, right-open interval `[low, high)`.
    pub fn closed_open(low: T, high: T) -> (res: IntervalSetResult<Self>)
        requires
            is_total_order::<T>(),
        ensures
            match res {
                Ok(interval) => {
                    &&& lt(low, high)
                    &&& interval.left_end() == Endpoint::Closed(low)
                    &&& interval.right_end() == Endpoint::Open(high)
                    &&& interval.wf()
                },
                Err(e) => !lt(low, high) && e == IntervalSetError::InvalidInterval,
            },
    {
        if low < high {
            Ok(Self { left: Endpoint::Closed(low), right: Endpoint::Open(high) })
        } else {
            Err(IntervalSetError::InvalidInterval)
        }
    }

    /// Creates the interval `(-∞, high)`.
    pub fn unbounded_open(high: T) -> (res: Self)
        ensures
            res.left_end() == Endpoint::<T>::Unbounded,
            res.right_end() == Endpoint::Open(high),
            res.wf(),
    {
        Self { left: Endpoint::Unbounded, right: Endpoint::Open(high) }
    }

    /// Creates the interval `(-∞, high]`.
    pub fn unbounded_closed(high: T) -> (res: Self)
        ensures
            res.left_end() == Endpoint::<T>::Unbounded,
            res.right_end() == Endpoint::Closed(high),
            res.wf(),
    {
        Self { left: Endpoint::Unbounded, right: Endpoint::Closed(high) }
    }

    /// Creates the interval `(low, +∞)`.
    pub fn open_unbounded(low: T) -> (res: Self)
        ensures
            res.left_end() == Endpoint::Open(low),
            res.right_end() == Endpoint::<T>::Unbounded,
            res.wf(),
    {
        Self { left: Endpoint::Open(low), right: Endpoint::Unbounded }
    }

    /// Creates the interval `[low, +∞)`.
    pub fn closed_unbounded(low: T) -> (res: Self)
        ensures
            res.left_end() == Endpoint::Closed(low),
            res.right_end() == Endpoint::<T>::Unbounded,
            res.wf(),
    {
        Self { left: Endpoint::Closed(low), right: Endpoint::Unbounded }
    }

    /// Creates the interval `(-∞, +∞)` of all values.
    pub fn universe() -> (res: Self)
        ensures
            res.left_end() == Endpoint::<T>::Unbounded,
            res.right_end() == Endpoint::<T>::Unbounded,
            res.wf(),
    {
        Self { left: Endpoint::Unbounded, right: Endpoint::Unbounded }
    }
}

// Queries.
impl<T: PartialOrd + Clone> Interval<T> {
    /// Gets the left endpoint.
    pub fn left(&self) -> (res: &Endpoint<T>)
        ensures
            *res == self.left_end(),
    {
        &self.left
    }

    /// Gets the right endpoint.
    pub fn right(&self) -> (res: &Endpoint<T>)
        ensures
            *res == self.right_end(),
    {
        &self.right
    }

    /// Gets the value of the left endpoint, or `None` where the interval
    /// is unbounded on the left.
    pub fn low(&self) -> (res: Option<T>)
        ensures
            match self.left_end().value() {
                Some(v) => res matches Some(c) && cloned::<T>(v, c),
                None => res is None,
            },
            clones_exactly::<T>() ==> res == self.left_end().value(),
    {
        match &self.left {
            Endpoint::Open(low) => Some(low.clone()),
            Endpoint::Closed(low) => Some(low.clone()),
            Endpoint::Unbounded => None,
        }
    }

    /// Gets the value of the right endpoint, or `None` where the interval
    /// is unbounded on the right.
    pub fn high(&self) -> (res: Option<T>)
        ensures
            match self.right_end().value() {
                Some(v) => res matches Some(c) && cloned::<T>(v, c),
                None => res is None,
            },
            clones_exactly::<T>() ==> res == self.right_end().value(),
    {
        match &self.right {
            Endpoint::Open(high) => Some(high.clone()),
            Endpoint::Closed(high) => Some(high.clone()),
            Endpoint::Unbounded => None,
        }
    }

    /// Checks if the interval is the universe: unbounded on both sides.
    pub fn is_universe(&self) -> (res: bool)
        ensures
            res == (self.left_end() is Unbounded && self.right_end() is Unbounded),
    {
        match (&self.left, &self.right) {
            (Endpoint::Unbounded, Endpoint::Unbounded) => true,
            _ => false,
        }
    }

    /// Checks if the interval is degenerate: closed on both sides, at one
    /// value, so that it holds a single point.
    pub fn is_degenerate(&self) -> (res: bool)
        requires
            is_total_order::<T>(),
        ensures
            res == (self.left_end() is Closed && self.right_end() == self.left_end()),
    {
        match (&self.left, &self.right) {
            (Endpoint::Closed(low), Endpoint::Closed(high)) => low == high,
            _ => false,
        }
    }

    /// Checks if the interval is bounded: on neither side unbounded.
    pub fn is_bounded(&self) -> (res: bool)
        ensures
            res == (!(self.left_end() is Unbounded) && !(self.right_end() is Unbounded)),
    {
        match (&self.left, &self.right) {
            (Endpoint::Unbounded, _) => false,
            (_, Endpoint::Unbounded) => false,
            _ => true,
        }
    }

    /// Checks if the interval is unbounded on at least one side.
    pub fn is_unbounded(&self) -> (res: bool)
        ensures
            res == (self.left_end() is Unbounded || self.right_end() is Unbounded),
    {
        !self.is_bounded()
    }

    /// Checks if `x` is a point of the interval.
    pub fn contains(&self, x: &T) -> (res: bool)
        requires
            is_total_order::<T>(),
        ensures
            res == self.contains_point(*x),
    {
        let above_left = match &self.left {
            Endpoint::Open(low) => low < x,
            Endpoint::Closed(low) => low <= x,
            Endpoint::Unbounded => true,
        };
        let below_right = match &self.right {
            Endpoint::Open(high) => x < high,
            Endpoint::Closed(high) => x <= high,
            Endpoint::Unbounded => true,
        };
        above_left && below_right
    }
}

// Algebra.
impl<T: PartialOrd + Clone> Interval<T> {
    /// Checks if the interval is separated from the other interval: there
    /// is a gap between the two, so that neither reaches the other even
    /// with its boundary values added.
    pub fn is_separated_from(&self, other: &Self) -> (res: bool)
        requires
            is_total_order::<T>(),
        ensures
            res == self.separated(*other),
    {
        self.is_other_separated_from_this_to_the_left(other)
            || self.is_other_separated_from_this_to_the_right(other)
    }

    /// Merges two intervals into the one interval that covers both, or
    /// reports that they are separated.
    pub fn merge(&self, other: &Self) -> (res: IntervalSetResult<Self>)
        requires
            is_total_order::<T>(),
            clones_exactly::<T>(),
            self.wf(),
            other.wf(),
        ensures
            match res {
                Ok(merged) => {
                    &&& !self.separated(*other)
                    &&& merged == self.hull(*other)
                    &&& merged.wf()
                    &&& merged@ == self@.union(other@)
                },
                Err(e) => self.separated(*other) && e == IntervalSetError::MergeSeparatedIntervals,
            },
    {
        if self.is_separated_from(other) {
            // Separated intervals leave a gap that no interval may cover.
            Err(IntervalSetError::MergeSeparatedIntervals)
        } else {
            proof {
                Self::lemma_hull(*self, *other);
            }
            Ok(
                Self {
                    left: self.smaller_left_endpoint(other),
                    right: self.greater_right_endpoint(other),
                },
            )
        }
    }

    /// Computes the interval of the points that this interval and the
    /// other one share, or `None` where no interval bounds them.
    pub fn overlap(&self, other: &Self) -> (res: Option<Self>)
        requires
            is_total_order::<T>(),
            clones_exactly::<T>(),
        ensures
            res == self.common_part(*other),
            res matches Some(common) ==> common.wf(),
            Self::points_of(res) == self@.intersect(other@),
    {
        let left = self.greater_left_endpoint(other);
        let right = self.less_right_endpoint(other);
        proof {
            Self::lemma_common_part(*self, *other);
        }
        match Self::new(left, right) {
            Ok(common) => Some(common),
            Err(_) => None,
        }
    }

    /// Checks if the other interval lies entirely before this one, with a
    /// gap between its right end and the left end of this one.
    pub(crate) fn is_other_separated_from_this_to_the_left(&self, other: &Self) -> (res: bool)
        requires
            is_total_order::<T>(),
        ensures
            res == other.lies_before(*self),
    {
        match &self.left {
            Endpoint::Open(this_low) => {
                // Two open ends may meet at one value; a closed end of the
                // other interval has to stay strictly below.
                match &other.right {
                    Endpoint::Open(other_high) => this_low >= other_high,
                    Endpoint::Closed(other_high) => this_low > other_high,
                    Endpoint::Unbounded => false,
                }
            },
            Endpoint::Closed(this_low) => {
                match &other.right {
                    Endpoint::Open(other_high) => this_low > other_high,
                    Endpoint::Closed(other_high) => this_low > other_high,
                    Endpoint::Unbounded => false,
                }
            },
            Endpoint::Unbounded => false,
        }
    }

    /// Checks if the other interval lies entirely after this one, with a
    /// gap between the right end of this one and its left end.
    pub(crate) fn is_other_separated_from_this_to_the_right(&self, other: &Self) -> (res: bool)
        requires
            is_total_order::<T>(),
        ensures
            res == self.lies_before(*other),
    {
        match &self.right {
            Endpoint::Open(this_high) => {
                // Two open ends may meet at one value; a closed end of the
                // other interval has to stay strictly above.
                match &other.left {
                    Endpoint::Open(other_low) => this_high <= other_low,
                    Endpoint::Closed(other_low) => this_high < other_low,
                    Endpoint::Unbounded => false,
                }
            },
            Endpoint::Closed(this_high) => {
                match &other.left {
                    Endpoint::Open(other_low) => this_high < other_low,
                    Endpoint::Closed(other_low) => this_high < other_low,
                    Endpoint::Unbounded => false,
                }
            },
            Endpoint::Unbounded => false,
        }
    }

    /// Checks if this interval ends strictly before the other one does.
    pub(crate) fn ends_before(&self, other: &Self) -> (res: bool)
        requires
            is_total_order::<T>(),
        ensures
            res == right_precedes(self.right_end(), other.right_end()),
    {
        match (&self.right, &other.right) {
            (Endpoint::Unbounded, _) => false,
            (_, Endpoint::Unbounded) => true,
            // An open end comes before a closed one at the same value.
            (Endpoint::Open(this_high), Endpoint::Closed(other_high)) => this_high <= other_high,
            (Endpoint::Open(this_high), Endpoint::Open(other_high)) => this_high < other_high,
            (Endpoint::Closed(this_high), Endpoint::Open(other_high)) => this_high < other_high,
            (Endpoint::Closed(this_high), Endpoint::Closed(other_high)) => this_high < other_high,
        }
    }

    /// Gets the interval of everything before this one, if this one is
    /// bounded on the left.
    pub(crate) fn before(&self) -> (res: Option<Self>)
        requires
            clones_exactly::<T>(),
        ensures
            res == self.rest_before(),
    {
        match &self.left {
            Endpoint::Unbounded => None,
            _ => Some(Self { left: Endpoint::Unbounded, right: self.left.flip() }),
        }
    }

    /// Gets the interval of everything after this one, if this one is
    /// bounded on the right.
    pub(crate) fn after(&self) -> (res: Option<Self>)
        requires
            clones_exactly::<T>(),
        ensures
            res == self.rest_after(),
    {
        match &self.right {
            Endpoint::Unbounded => None,
            _ => Some(Self { left: self.right.flip(), right: Endpoint::Unbounded }),
        }
    }

    /// Gets the interval of everything after this one and before the
    /// later one.
    pub(crate) fn between(&self, later: &Self) -> (res: Self)
        requires
            clones_exactly::<T>(),
        ensures
            res == self.rest_between(*later),
    {
        Self { left: self.right.flip(), right: later.left.flip() }
    }

    /// Gets the smaller left endpoint of the two intervals.
    fn smaller_left_endpoint(&self, other: &Self) -> (res: Endpoint<T>)
        requires
            is_total_order::<T>(),
            clones_exactly::<T>(),
        ensures
            res == outer_left(self.left_end(), other.left_end()),
    {
        match (&self.left, &other.left) {
            // An unbounded side stays unbounded.
            (Endpoint::Unbounded, _) => Endpoint::Unbounded,
            (_, Endpoint::Unbounded) => Endpoint::Unbounded,
            _ => {
                // Both sides are bounded, so both values exist.
                let this_low = self.low().unwrap();
                let other_low = other.low().unwrap();
                if this_low < other_low {
                    self.left.clone()
                } else if this_low > other_low {
                    other.left.clone()
                } else {
                    // At one value the closed endpoint admits more.
                    let closed = match (&self.left, &other.left) {
                        (Endpoint::Closed(_), _) => true,
                        (_, Endpoint::Closed(_)) => true,
                        _ => false,
                    };
                    if closed {
                        Endpoint::Closed(this_low)
                    } else {
                        Endpoint::Open(this_low)
                    }
                }
            },
        }
    }

    /// Gets the greater left endpoint of the two intervals.
    fn greater_left_endpoint(&self, other: &Self) -> (res: Endpoint<T>)
        requires
            is_total_order::<T>(),
            clones_exactly::<T>(),
        ensures
            res == inner_left(self.left_end(), other.left_end()),
    {
        match (&self.left, &other.left) {
            // An unbounded side yields to the other one.
            (Endpoint::Unbounded, _) => other.left.clone(),
            (_, Endpoint::Unbounded) => self.left.clone(),
            _ => {
                // Both sides are bounded, so both values exist.
                let this_low = self.low().unwrap();
                let other_low = other.low().unwrap();
                if this_low > other_low {
                    self.left.clone()
                } else if this_low < other_low {
                    other.left.clone()
                } else {
                    // At one value the open endpoint admits less.
                    let open = match (&self.left, &other.left) {
                        (Endpoint::Open(_), _) => true,
                        (_, Endpoint::Open(_)) => true,
                        _ => false,
                    };
                    if open {
                        Endpoint::Open(this_low)
                    } else {
                        Endpoint::Closed(this_low)
                    }
                }
            },
        }
    }

    /// Gets the less right endpoint of the two intervals.
    fn less_right_endpoint(&self, other: &Self) -> (res: Endpoint<T>)
        requires
            is_total_order::<T>(),
            clones_exactly::<T>(),
        ensures
            res == inner_right(self.right_end(), other.right_end()),
    {
        match (&self.right, &other.right) {
            // An unbounded side yields to the other one.
            (Endpoint::Unbounded, _) => other.right.clone(),
            (_, Endpoint::Unbounded) => self.right.clone(),
            _ => {
                // Both sides are bounded, so both values exist.
                let this_high = self.high().unwrap();
                let other_high = other.high().unwrap();
                if this_high < other_high {
                    self.right.clone()
                } else if this_high > other_high {
                    other.right.clone()
                } else {
                    // At one value the open endpoint admits less.
                    let open = match (&self.right, &other.right) {
                        (Endpoint::Open(_), _) => true,
                        (_, Endpoint::Open(_)) => true,
                        _ => false,
                    };
                    if open {
                        Endpoint::Open(this_high)
                    } else {
                        Endpoint::Closed(this_high)
                    }
                }
            },
        }
    }

    /// Gets the greater right endpoint of the two intervals.
    fn greater_right_endpoint(&self, other: &Self) -> (res: Endpoint<T>)
        requires
            is_total_order::<T>(),
            clones_exactly::<T>(),
        ensures
            res == outer_right(self.right_end(), other.right_end()),
    {
        match (&self.right, &other.right) {
            // An unbounded side stays unbounded.
            (Endpoint::Unbounded, _) => Endpoint::Unbounded,
            (_, Endpoint::Unbounded) => Endpoint::Unbounded,
            _ => {
                // Both sides are bounded, so both values exist.
                let this_high = self.high().unwrap();
                let other_high = other.high().unwrap();
                if this_high > other_high {
                    self.right.clone()
                } else if this_high < other_high {
                    other.right.clone()
                } else {
                    // At one value the closed endpoint admits more.
                    let closed = match (&self.right, &other.right) {
                        (Endpoint::Closed(_), _) => true,
                        (_, Endpoint::Closed(_)) => true,
                        _ => false,
                    };
                    if closed {
                        Endpoint::Closed(this_high)
                    } else {
                        Endpoint::Open(this_high)
                    }
                }
            },
        }
    }
}

// Notation.
impl<T: PartialOrd + Clone> Interval<T> {
    /// Writes the interval in canonical notation around the given texts
    /// of its two values.
    pub fn render(&self, low_text: &str, high_text: &str) -> (res: String)
        requires
            is_total_order::<T>(),
        ensures
            res@ == self.notation(low_text@, high_text@),
    {
        if self.is_degenerate() {
            let mut text = String::from_str("[");
            text.append(low_text);
            text.append("]");
            text
        } else {
            let mut text = match &self.left {
                Endpoint::Open(_) => {
                    let mut t = String::from_str("(");
                    t.append(low_text);
                    t
                },
                Endpoint::Closed(_) => {
                    let mut t = String::from_str("[");
                    t.append(low_text);
                    t
                },
                Endpoint::Unbounded => String::from_str("(-∞"),
            };
            text.append(", ");
            match &self.right {
                Endpoint::Open(_) => {
                    text.append(high_text);
                    text.append(")");
                },
                Endpoint::Closed(_) => {
                    text.append(high_text);
                    text.append("]");
                },
                Endpoint::Unbounded => {
                    text.append("+∞)");
                },
            }
            assert(text@ =~= self.notation(low_text@, high_text@));
            text
        }
    }
}

impl<T: PartialOrd + Clone + core::fmt::Display> Interval<T> {
    /// Writes the interval in canonical notation, each value as its
    /// `Display` implementation writes it.
    pub fn to_string(&self) -> (res: String)
        requires
            is_total_order::<T>(),
        ensures
            exists|low_text: String, high_text: String|
                {
                    &&& self.left_end().value() matches Some(low)
                        ==> vstd::string::to_string_from_display_ensures::<T>(&low, low_text)
                    &&& self.right_end().value() matches Some(high)
                        ==> vstd::string::to_string_from_display_ensures::<T>(&high, high_text)
                    &&& res@ == #[trigger] self.notation(low_text@, high_text@)
                },
    {
        let low_text = match &self.left {
            Endpoint::Open(low) => low.to_string(),
            Endpoint::Closed(low) => low.to_string(),
            Endpoint::Unbounded => String::new(),
        };
        let high_text = match &self.right {
            Endpoint::Open(high) => high.to_string(),
            Endpoint::Closed(high) => high.to_string(),
            Endpoint::Unbounded => String::new(),
        };
        self.render(low_text.as_str(), high_text.as_str())
    }
}

impl<T: PartialOrd + Clone> Clone for Interval<T> {
    fn clone(&self) -> (res: Self)
        ensures
            clones_exactly::<T>() ==> res == *self,
    {
        Self { left: self.left.clone(), right: self.right.clone() }
    }
}

} // verus!
