//! Verified algorithms and collections.
//!
//! The core of the crate is an interval algebra: single intervals of a
//! totally ordered domain, with open, closed or unbounded ends, and sets
//! held as canonical sequences of separated intervals, with union,
//! intersection and complement. Beside it stand an insertion sort and a
//! linked list.
//!
//! Every function states what it returns as a contract over a
//! mathematical model of its arguments, and is proved to meet it. What a
//! function demands of the type it works on is stated too: the functions
//! that compare values require [`order::is_total_order`], and those that
//! hand out copies of values say what they return in terms of the type's
//! `clone`, and exactly where [`order::clones_exactly`] holds. Both hold
//! of the primitive integers.

pub mod collections;
pub mod order;
pub mod sorting;
