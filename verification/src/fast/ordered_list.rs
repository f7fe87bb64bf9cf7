use crate::base::node_one_link::iter::Iter;
use crate::list::common::{IntoIter, ListCommon};
use vstd::prelude::*;

verus! {

/// The fast-flavor ordered list: the same engine as the other flavors, with
/// the read-side surface in place. Its insertion fast paths live in the
/// sorted flavor, which this one shares its engine with.
pub struct OrderedList<T> {
    state: ListCommon<T>,
}

impl<T> View for OrderedList<T> {
    type V = Seq<T>;

    closed spec fn view(&self) -> Seq<T> {
        self.state@
    }
}

impl<T> OrderedList<T> {
    /// Valid-state condition: the engine inside is well formed.
    pub closed spec fn wf(&self) -> bool {
        self.state.wf()
    }

    /// Creates an empty ordered list.
    pub fn new() -> (r: Self)
        ensures
            r.wf(),
            r@ =~= Seq::<T>::empty(),
    {
        OrderedList { state: ListCommon::new() }
    }

    /// Returns the list size.
    pub fn len(&self) -> (r: usize)
        requires
            self.wf(),
        ensures
            r == self@.len(),
    {
        self.state.len()
    }

    /// True exactly on an empty list.
    pub fn is_empty(&self) -> (r: bool)
        requires
            self.wf(),
        ensures
            r == (self@.len() == 0),
    {
        self.state.len() == 0
    }

    /// Starts a borrowing cursor at the head of the list.
    pub fn iter(&self) -> (r: Iter<'_, T>)
        ensures
            r.remaining() == self@,
    {
        self.state.iter()
    }

    /// Hands the list to a consuming cursor that pops from the front.
    pub fn into_iter(self) -> (r: IntoIter<T>)
        requires
            self.wf(),
        ensures
            r.wf(),
            r@ == self@,
    {
        self.state.into_iter()
    }
}

} // verus!
