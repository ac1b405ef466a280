//! Collection types.

pub mod interval_set;
pub mod linked_list;
