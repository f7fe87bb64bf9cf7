//! A family of singly-linked list containers: a plain list with front and
//! back operations, two sorted flavors that differ in how they pick the
//! splice point, an in-place merge sort over the node chain, and a small
//! path index built from the sorted flavor. Every operation carries a
//! contract over the list's sequence view, and the sort and sorted
//! insertions are proved order- and content-correct.

pub mod base;
pub mod fast;
pub mod laws;
pub mod list;
pub mod lite;
pub mod order;
pub mod tree;

pub use crate::base::error::DSError;
pub use crate::list::api::List;
pub use crate::list::ordered::OrderedList;
pub use crate::list::singly_linked::SinglyLinkedList;
pub use crate::list::sorted::SortedList;
