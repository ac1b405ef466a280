//! Interval boundaries, and the relations between boundaries from which
//! the interval algebra is built.
//!
//! A boundary is never compared on its own: whether an open boundary lies
//! before or after a closed one at the same value depends on which side of
//! an interval it ends. Every relation below therefore says of each of its
//! arguments whether it is a left or a right boundary.

use crate::order::{clones_exactly, le, lt};
use vstd::prelude::*;

verus! {

/// One boundary of an interval.
#[derive(Debug, PartialEq)]
pub enum Endpoint<T: PartialOrd + Clone> {
    /// Ends at the value and excludes it.
    Open(T),
    /// Ends at the value and includes it.
    Closed(T),
    /// No boundary: the interval extends without limit on this side.
    Unbounded,
}

impl<T: PartialOrd + Clone> Endpoint<T> {
    /// The value at which a bounded endpoint lies.
    pub open spec fn value(self) -> Option<T> {
        match self {
            Endpoint::Open(v) | Endpoint::Closed(v) => Some(v),
            Endpoint::Unbounded => None,
        }
    }

    /// The same position seen from the other side: what the interval
    /// excluded there is included, and the reverse.
    pub open spec fn flipped(self) -> Endpoint<T> {
        match self {
            Endpoint::Open(v) => Endpoint::Closed(v),
            Endpoint::Closed(v) => Endpoint::Open(v),
            Endpoint::Unbounded => Endpoint::Unbounded,
        }
    }

    /// The endpoint with its value included.
    pub open spec fn closure(self) -> Endpoint<T> {
        match self {
            Endpoint::Open(v) | Endpoint::Closed(v) => Endpoint::Closed(v),
            Endpoint::Unbounded => Endpoint::Unbounded,
        }
    }

    /// Gets the same position as seen from the other side: open for
    /// closed and closed for open.
    pub fn flip(&self) -> (res: Self)
        ensures
            match *self {
                Endpoint::Open(v) => res matches Endpoint::Closed(c) && cloned::<T>(v, c),
                Endpoint::Closed(v) => res matches Endpoint::Open(c) && cloned::<T>(v, c),
                Endpoint::Unbounded => res is Unbounded,
            },
            clones_exactly::<T>() ==> res == self.flipped(),
    {
        match self {
            Endpoint::Open(v) => Endpoint::Closed(v.clone()),
            Endpoint::Closed(v) => Endpoint::Open(v.clone()),
            Endpoint::Unbounded => Endpoint::Unbounded,
        }
    }
}

impl<T: PartialOrd + Clone> Clone for Endpoint<T> {
    fn clone(&self) -> (res: Self)
        ensures
            match *self {
                Endpoint::Open(v) => res matches Endpoint::Open(c) && cloned::<T>(v, c),
                Endpoint::Closed(v) => res matches Endpoint::Closed(c) && cloned::<T>(v, c),
                Endpoint::Unbounded => res is Unbounded,
            },
            clones_exactly::<T>() ==> res == *self,
    {
        match self {
            Endpoint::Open(v) => Endpoint::Open(v.clone()),
            Endpoint::Closed(v) => Endpoint::Closed(v.clone()),
            Endpoint::Unbounded => Endpoint::Unbounded,
        }
    }
}

/// `x` lies on the inner side of the left boundary `left`.
pub open spec fn left_admits<T: PartialOrd + Clone>(left: Endpoint<T>, x: T) -> bool {
    match left {
        Endpoint::Open(low) => lt(low, x),
        Endpoint::Closed(low) => le(low, x),
        Endpoint::Unbounded => true,
    }
}

/// `x` lies on the inner side of the right boundary `right`.
pub open spec fn right_admits<T: PartialOrd + Clone>(right: Endpoint<T>, x: T) -> bool {
    match right {
        Endpoint::Open(high) => lt(x, high),
        Endpoint::Closed(high) => le(x, high),
        Endpoint::Unbounded => true,
    }
}

/// `left` and `right` bound an interval: the left value is strictly below
/// the right one, or equal to it where both boundaries are closed. An
/// unbounded side constrains nothing.
pub open spec fn valid_bounds<T: PartialOrd + Clone>(
    left: Endpoint<T>,
    right: Endpoint<T>,
) -> bool {
    match (left, right) {
        (Endpoint::Closed(low), Endpoint::Closed(high)) => le(low, high),
        (Endpoint::Open(low), Endpoint::Open(high))
        | (Endpoint::Open(low), Endpoint::Closed(high))
        | (Endpoint::Closed(low), Endpoint::Open(high)) => lt(low, high),
        _ => true,
    }
}

/// There is a gap between an interval that ends on the right at `right`
/// and a later interval that begins on the left at `left`: some position
/// at or between the two values belongs to neither interval, even with
/// their boundary values added. Two open boundaries leave such a position
/// when they meet at one value; otherwise the right value must be
/// strictly below the left one.
pub open spec fn gap_between<T: PartialOrd + Clone>(right: Endpoint<T>, left: Endpoint<T>) -> bool {
    match (right, left) {
        (Endpoint::Open(high), Endpoint::Open(low)) => le(high, low),
        (Endpoint::Open(high), Endpoint::Closed(low))
        | (Endpoint::Closed(high), Endpoint::Open(low))
        | (Endpoint::Closed(high), Endpoint::Closed(low)) => lt(high, low),
        _ => false,
    }
}

/// Of two left boundaries the one that admits more: unbounded before any
/// value, the smaller value before the greater, and closed before open
/// at one value.
pub open spec fn outer_left<T: PartialOrd + Clone>(a: Endpoint<T>, b: Endpoint<T>) -> Endpoint<T> {
    match (a.value(), b.value()) {
        (Some(x), Some(y)) => if lt(x, y) {
            a
        } else if lt(y, x) {
            b
        } else if a is Closed || b is Closed {
            Endpoint::Closed(x)
        } else {
            Endpoint::Open(x)
        },
        _ => Endpoint::Unbounded,
    }
}

/// Of two left boundaries the one that admits less: any value before
/// unbounded, the greater value before the smaller, and open before
/// closed at one value.
pub open spec fn inner_left<T: PartialOrd + Clone>(a: Endpoint<T>, b: Endpoint<T>) -> Endpoint<T> {
    match (a.value(), b.value()) {
        (None, _) => b,
        (_, None) => a,
        (Some(x), Some(y)) => if lt(y, x) {
            a
        } else if lt(x, y) {
            b
        } else if a is Open || b is Open {
            Endpoint::Open(x)
        } else {
            Endpoint::Closed(x)
        },
    }
}

/// Of two right boundaries the one that admits less: any value before
/// unbounded, the smaller value before the greater, and open before
/// closed at one value.
pub open spec fn inner_right<T: PartialOrd + Clone>(a: Endpoint<T>, b: Endpoint<T>) -> Endpoint<T> {
    match (a.value(), b.value()) {
        (None, _) => b,
        (_, None) => a,
        (Some(x), Some(y)) => if lt(x, y) {
            a
        } else if lt(y, x) {
            b
        } else if a is Open || b is Open {
            Endpoint::Open(x)
        } else {
            Endpoint::Closed(x)
        },
    }
}

/// Of two right boundaries the one that admits more: unbounded before any
/// value, the greater value before the smaller, and closed before open
/// at one value.
pub open spec fn outer_right<T: PartialOrd + Clone>(a: Endpoint<T>, b: Endpoint<T>) -> Endpoint<T> {
    match (a.value(), b.value()) {
        (Some(x), Some(y)) => if lt(y, x) {
            a
        } else if lt(x, y) {
            b
        } else if a is Closed || b is Closed {
            Endpoint::Closed(x)
        } else {
            Endpoint::Open(x)
        },
        _ => Endpoint::Unbounded,
    }
}

/// Of two left boundaries, `a` begins strictly before `b`: at a smaller
/// value, or closed where `b` is open at the same value, or unbounded
/// where `b` has a value.
pub open spec fn left_precedes<T: PartialOrd + Clone>(a: Endpoint<T>, b: Endpoint<T>) -> bool {
    match (a.value(), b.value()) {
        (Some(x), Some(y)) => lt(x, y) || (x == y && a is Closed && b is Open),
        (None, Some(_)) => true,
        (_, None) => false,
    }
}

/// Of two right boundaries, `a` ends strictly before `b`: at a smaller
/// value, or open where `b` is closed at the same value, or at any value
/// where `b` is unbounded.
pub open spec fn right_precedes<T: PartialOrd + Clone>(a: Endpoint<T>, b: Endpoint<T>) -> bool {
    match (a.value(), b.value()) {
        (Some(x), Some(y)) => lt(x, y) || (x == y && a is Open && b is Closed),
        (Some(_), None) => true,
        (None, _) => false,
    }
}

} // verus!
