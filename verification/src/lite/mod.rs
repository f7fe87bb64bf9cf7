pub mod list;

pub use list::{IntoIter, Iter, IterMut, List, Node};
