pub mod ordered_list;

pub use ordered_list::OrderedList;
