use vstd::prelude::*;

verus! {

/// The single error kind of this list flavor: a bounds-checked access or
/// mutation named an index past the end, carrying the offending index and
/// the list's length at the time of the call.
#[derive(Debug, PartialEq, Eq, Structural, Clone, Copy)]
pub enum ListError {
    IndexOutOfBounds { index: usize, len: usize },
}

} // verus!
