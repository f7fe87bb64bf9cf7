use vstd::prelude::*;

verus! {

/// The single error kind of the list family: a bounds-checked access or
/// mutation was asked for an index past the end of the list. It carries the
/// offending index and the list's length at the time of the call.
#[derive(Debug, PartialEq, Eq, Structural, Clone, Copy)]
pub enum DSError {
    IndexOutOfBounds { index: usize, len: usize },
}

} // verus!
