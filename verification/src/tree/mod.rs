pub mod file_tree;
pub mod node;
pub mod part;

pub use file_tree::{FileTree, TreePath};
pub use node::Node;
pub use part::PathPart;
