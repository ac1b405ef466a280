//! A singly linked list.

use vstd::prelude::*;

verus! {

/// A singly linked list: a cell that may hold a value, and the rest of
/// the list behind it.
#[derive(Debug)]
pub struct LinkedList<T> {
    pub value: Option<T>,
    pub next: Option<Box<LinkedList<T>>>,
}

/// A cell of a list whose cells all hold a value.
pub struct LinkedListNode<T> {
    pub value: T,
    pub next: Option<Box<LinkedListNode<T>>>,
}

impl<T> LinkedList<T> {
    /// Creates the list of one cell that holds no value.
    pub fn new() -> (res: Self)
        ensures
            res.value is None,
            res.next is None,
    {
        Self { value: None, next: None }
    }
}

} // verus!
