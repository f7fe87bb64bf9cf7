pub mod error;
pub mod node_one_link;

pub use error::DSError;
pub use node_one_link::Node;
