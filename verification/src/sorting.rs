//! Sorting algorithms.

pub mod insertion_sort;
