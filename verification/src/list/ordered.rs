use crate::base::error::DSError;
use crate::base::node_one_link::iter::Iter;
use crate::list::api::List;
use crate::list::common::{IntoIter, ListCommon};
use crate::order::{
    cmp_reliable, lemma_linear_insert_pos_is_first, lemma_linear_insert_sorted, linear_insert,
    linear_insert_pos, lt_spec, sorted_le,
};
use vstd::pervasive::cloned;
use vstd::prelude::*;
use vstd::std_specs::cmp::{PartialEqSpec, PartialOrdSpec};

verus! {

/// A list that keeps its elements sorted by scanning linearly from the head
/// on every insertion: the new element lands directly before the first
/// element it is strictly less than, so it follows the elements it ties
/// with (a stable insertion).
pub struct OrderedList<T> {
    state: ListCommon<T>,
}

impl<T> View for OrderedList<T> {
    type V = Seq<T>;

    closed spec fn view(&self) -> Seq<T> {
        self.state@
    }
}

impl<T> OrderedList<T> {
    /// Valid-state condition: the engine inside is well formed.
    pub closed spec fn wf(&self) -> bool {
        self.state.wf()
    }

    /// Creates an empty ordered list.
    pub fn new() -> (r: Self)
        ensures
            r.wf(),
            r@ =~= Seq::<T>::empty(),
    {
        OrderedList { state: ListCommon::new() }
    }

    /// Builds a list from clones of the slice's elements; under a dependable
    /// comparison the result is sorted, whatever order the slice had.
    pub fn from_slice(slice: &mut [T]) -> (r: Self) where T: Clone + Ord
        ensures
            r.wf(),
            r@.len() == old(slice)@.len(),
            final(slice)@ == old(slice)@,
            cmp_reliable::<T>() ==> sorted_le(r@),
    {
        let mut list = OrderedList::new();
        let mut i: usize = 0;
        while i < slice.len()
            invariant
                list.wf(),
                i <= slice@.len(),
                list@.len() == i,
                cmp_reliable::<T>() ==> sorted_le(list@),
            decreases slice@.len() - i,
        {
            list.push(slice[i].clone());
            i = i + 1;
        }
        list
    }

    /// Copies every element, in order, into a fresh vector; the list is not
    /// changed.
    pub fn to_vec(&self) -> (r: Vec<T>) where T: Clone
        requires
            self.wf(),
        ensures
            r@.len() == self@.len(),
            forall|i: int| 0 <= i < self@.len() ==> cloned::<T>(self@[i], #[trigger] r@[i]),
    {
        self.state.to_vec()
    }


    /// Mutably borrows the element at `index`; the list afterwards holds, at
    /// that position, whatever the caller wrote through the borrow. Fails
    /// with `IndexOutOfBounds` exactly when `index >= len`.
    pub fn get_mut(&mut self, index: usize) -> (r: Result<&mut T, DSError>)
        requires
            old(self).wf(),
        ensures
            final(self).wf(),
            index < old(self)@.len() ==> r is Ok && *r.unwrap() == old(self)@[index as int]
                && final(self)@ == old(self)@.update(index as int, *final(r.unwrap())),
            index >= old(self)@.len() ==> r == Err::<&mut T, DSError>(
                DSError::IndexOutOfBounds { index, len: old(self)@.len() as usize },
            ) && final(self)@ == old(self)@,
    {
        self.state.get_mut(index)
    }

    /// Starts a borrowing cursor at the head of the list.
    pub fn iter(&self) -> (r: Iter<'_, T>)
        ensures
            r.remaining() == self@,
    {
        self.state.iter()
    }

    /// Hands the list to a consuming cursor that pops from the front.
    pub fn into_iter(self) -> (r: IntoIter<T>)
        requires
            self.wf(),
        ensures
            r.wf(),
            r@ == self@,
    {
        self.state.into_iter()
    }

    /// Returns the index of the first element satisfying the predicate, or
    /// `None`; the list is not changed.
    pub fn find_if<F: Fn(&T) -> bool>(&self, predicate: F) -> (r: Option<usize>)
        requires
            self.wf(),
            forall|t: &T| #[trigger] predicate.requires((t,)),
        ensures
            match r {
                Some(i) => i < self@.len() && call_ensures(predicate, (&self@[i as int],), true)
                    && forall|j: int|
                    0 <= j < i ==> call_ensures(predicate, (&(#[trigger] self@[j]),), false),
                None => forall|j: int|
                    0 <= j < self@.len() ==> call_ensures(
                        predicate,
                        (&(#[trigger] self@[j]),),
                        false,
                    ),
            },
    {
        self.state.find_if(predicate)
    }

    /// Walks from the head and returns the position of the first element the
    /// new payload is strictly less than, or the length when there is none.
    fn scan_pos(&self, payload: &T) -> (r: usize) where T: PartialOrd
        requires
            self.wf(),
        ensures
            r <= self@.len(),
            T::obeys_partial_cmp_spec() ==> r == linear_insert_pos(self@, *payload),
    {
        let ghost s = self@;
        proof {
            self.state.lemma_wf_len_bound();
        }
        let mut it = self.state.iter();
        let mut idx: usize = 0;
        loop
            invariant
                self.wf(),
                s == self@,
                s.len() <= usize::MAX,
                idx + it.remaining().len() == s.len(),
                it.remaining() =~= s.skip(idx as int),
                T::obeys_partial_cmp_spec() ==> forall|j: int|
                    0 <= j < idx ==> !lt_spec(*payload, #[trigger] s[j]),
            ensures
                idx == s.len(),
                T::obeys_partial_cmp_spec() ==> forall|j: int|
                    0 <= j < idx ==> !lt_spec(*payload, #[trigger] s[j]),
            decreases it.remaining().len(),
        {
            match it.next() {
                None => {
                    break ;
                }
                Some(elem) => {
                    assert(*elem == s[idx as int]);
                    if payload.lt(elem) {
                        proof {
                            if T::obeys_partial_cmp_spec() {
                                lemma_linear_insert_pos_is_first(s, *payload, idx as int);
                            }
                        }
                        return idx;
                    }
                    idx = idx + 1;
                }
            }
        }
        proof {
            if T::obeys_partial_cmp_spec() {
                lemma_linear_insert_pos_is_first(s, *payload, s.len() as int);
            }
        }
        idx
    }
}

impl<T: PartialOrd> List<T> for OrderedList<T> {
    open spec fn seq(&self) -> Seq<T> {
        self@
    }

    open spec fn inv(&self) -> bool {
        self.wf()
    }

    fn len(&self) -> (r: usize) {
        self.state.len()
    }

    fn is_empty(&self) -> (r: bool) {
        self.state.len() == 0
    }

    fn head(&self) -> (r: Option<&T>) {
        self.state.head()
    }

    fn last(&self) -> (r: Option<&T>) {
        self.state.last()
    }

    fn get(&self, index: usize) -> (r: Result<&T, DSError>) {
        self.state.get(index)
    }

    /// Splices the new element in at its linear-scan position: under a lawful
    /// `partial_cmp` the list view becomes `linear_insert` of the old view,
    /// and a sorted list stays sorted.
    fn push(&mut self, payload: T)
        ensures
            exists|i: int|
                0 <= i <= old(self)@.len() && final(self)@ == old(self)@.insert(i, payload),
            T::obeys_partial_cmp_spec() ==> final(self)@ == linear_insert(old(self)@, payload),
            cmp_reliable::<T>() && sorted_le(old(self)@) ==> sorted_le(final(self)@),
    {
        broadcast use vstd::seq_lib::group_to_multiset_ensures;

        let ghost s = self@;
        let idx = self.scan_pos(&payload);
        let r = self.state.insert(idx, payload);
        proof {
            assert(r is Ok);
            assert(self@ == s.insert(idx as int, payload));
            if cmp_reliable::<T>() && sorted_le(s) {
                lemma_linear_insert_sorted(s, payload);
            }
        }
    }

    fn pop_back(&mut self) -> (r: Option<T>) {
        self.state.pop_back()
    }

    fn pop_front(&mut self) -> (r: Option<T>) {
        self.state.pop_front()
    }

    fn remove(&mut self, index: usize) -> (r: Result<T, DSError>) {
        self.state.remove(index)
    }

    fn clear(&mut self) {
        self.state.clear()
    }

    /// Returns the index of the first element equal to `value`, or `None`.
    fn find(&self, value: &T) -> (r: Option<usize>) where T: PartialEq
        ensures
            T::obeys_eq_spec() ==> match r {
                Some(i) => i < self@.len() && self@[i as int].eq_spec(value) && forall|j: int|
                    0 <= j < i ==> !(#[trigger] self@[j]).eq_spec(value),
                None => forall|j: int|
                    0 <= j < self@.len() ==> !(#[trigger] self@[j]).eq_spec(value),
            },
    {
        self.state.find_eq(value)
    }
}

} // verus!
