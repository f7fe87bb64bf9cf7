pub mod iter;
pub mod merge_sort;
pub mod node;

pub use iter::Iter;
pub use merge_sort::merge_sort;
pub use node::Node;
