pub mod api;
pub mod common;
pub mod ordered;
pub mod singly_linked;
pub mod sorted;

pub use api::List;
pub use common::{IntoIter, IterMut, ListCommon};
pub use ordered::OrderedList;
pub use singly_linked::SinglyLinkedList;
pub use sorted::SortedList;
