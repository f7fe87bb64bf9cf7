use crate::base::error::DSError;
use crate::base::node_one_link::iter::Iter;
use crate::base::node_one_link::merge_sort::merge_sort;
use crate::base::node_one_link::node::{chain_view, Node};
use crate::list::api::List;
use crate::list::common::{IntoIter, ListCommon};
use crate::order::{cmp_antisymmetric, cmp_reliable, sorted_le};
use vstd::pervasive::cloned;
use vstd::prelude::*;
use vstd::std_specs::cmp::PartialEqSpec;

verus! {

/// A singly-linked list with plain insertion order: `push` appends at the
/// back, `push_front` and `insert` splice wherever the caller asks.
pub struct SinglyLinkedList<T> {
    state: ListCommon<T>,
}

impl<T> View for SinglyLinkedList<T> {
    type V = Seq<T>;

    closed spec fn view(&self) -> Seq<T> {
        self.state@
    }
}

impl<T> SinglyLinkedList<T> {
    /// Valid-state condition: the engine inside is well formed.
    pub closed spec fn wf(&self) -> bool {
        self.state.wf()
    }

    /// Creates an empty list.
    pub fn new() -> (r: Self)
        ensures
            r.wf(),
            r@ =~= Seq::<T>::empty(),
    {
        SinglyLinkedList { state: ListCommon::new() }
    }

    /// Builds a list holding a clone of each slice element, in slice order.
    pub fn from_slice(slice: &[T]) -> (r: Self) where T: Clone
        ensures
            r.wf(),
            r@.len() == slice@.len(),
            forall|i: int| 0 <= i < slice@.len() ==> cloned::<T>(slice@[i], #[trigger] r@[i]),
    {
        let mut list = SinglyLinkedList::new();
        let mut i: usize = 0;
        while i < slice.len()
            invariant
                list.wf(),
                i <= slice@.len(),
                list@.len() == i,
                forall|j: int| 0 <= j < i ==> cloned::<T>(slice@[j], #[trigger] list@[j]),
            decreases slice@.len() - i,
        {
            list.push(slice[i].clone());
            i = i + 1;
        }
        list
    }

    /// Copies every element, in order, into a fresh vector; the list is not
    /// changed.
    pub fn to_vec(&self) -> (r: Vec<T>) where T: Clone
        requires
            self.wf(),
        ensures
            r@.len() == self@.len(),
            forall|i: int| 0 <= i < self@.len() ==> cloned::<T>(self@[i], #[trigger] r@[i]),
    {
        self.state.to_vec()
    }

    /// Links a new element in front of the list.
    pub fn push_front(&mut self, payload: T)
        requires
            old(self).wf(),
            old(self)@.len() < usize::MAX,
        ensures
            final(self).wf(),
            final(self)@ == seq![payload] + old(self)@,
    {
        self.state.push_front(payload);
    }

    /// Splices a new element in at `index`; `index == len` appends. Fails
    /// with `IndexOutOfBounds` exactly when `index > len`, changing nothing.
    pub fn insert(&mut self, index: usize, payload: T) -> (r: Result<(), DSError>)
        requires
            old(self).wf(),
            old(self)@.len() < usize::MAX,
        ensures
            final(self).wf(),
            index <= old(self)@.len() ==> r is Ok && final(self)@ == old(self)@.insert(
                index as int,
                payload,
            ),
            index > old(self)@.len() ==> r == Err::<(), DSError>(
                DSError::IndexOutOfBounds { index, len: old(self)@.len() as usize },
            ) && final(self)@ == old(self)@,
    {
        self.state.insert(index, payload)
    }

    /// Mutably borrows the element at `index`; the list afterwards holds, at
    /// that position, whatever the caller wrote through the borrow. Fails
    /// with `IndexOutOfBounds` exactly when `index >= len`.
    pub fn get_mut(&mut self, index: usize) -> (r: Result<&mut T, DSError>)
        requires
            old(self).wf(),
        ensures
            final(self).wf(),
            index < old(self)@.len() ==> r is Ok && *r.unwrap() == old(self)@[index as int]
                && final(self)@ == old(self)@.update(index as int, *final(r.unwrap())),
            index >= old(self)@.len() ==> r == Err::<&mut T, DSError>(
                DSError::IndexOutOfBounds { index, len: old(self)@.len() as usize },
            ) && final(self)@ == old(self)@,
    {
        self.state.get_mut(index)
    }

    /// Returns the index of the first element satisfying the predicate, or
    /// `None`; the list is not changed.
    pub fn find_if<F: Fn(&T) -> bool>(&self, predicate: F) -> (r: Option<usize>) where
        T: PartialEq,

        requires
            self.wf(),
            forall|t: &T| #[trigger] predicate.requires((t,)),
        ensures
            match r {
                Some(i) => i < self@.len() && call_ensures(predicate, (&self@[i as int],), true)
                    && forall|j: int|
                    0 <= j < i ==> call_ensures(predicate, (&(#[trigger] self@[j]),), false),
                None => forall|j: int|
                    0 <= j < self@.len() ==> call_ensures(
                        predicate,
                        (&(#[trigger] self@[j]),),
                        false,
                    ),
            },
    {
        self.state.find_if(predicate)
    }

    /// Starts a borrowing cursor at the head of the list.
    pub fn iter(&self) -> (r: Iter<'_, T>)
        ensures
            r.remaining() == self@,
    {
        self.state.iter()
    }

    /// Hands the list to a consuming cursor that pops from the front.
    pub fn into_iter(self) -> (r: IntoIter<T>)
        requires
            self.wf(),
        ensures
            r.wf(),
            r@ == self@,
    {
        self.state.into_iter()
    }

    /// Sorts the list in non-decreasing order by relinking its nodes with a
    /// merge sort; the elements are kept, only their order changes. On an
    /// already sorted list of elements the comparison tells apart, nothing
    /// changes. After the call the size and tail bookkeeping are re-derived
    /// from the sorted chain.
    pub fn sort(&mut self) where T: PartialOrd + Default
        requires
            old(self).wf(),
        ensures
            final(self).wf(),
            final(self)@.to_multiset() == old(self)@.to_multiset(),
            final(self)@.len() == old(self)@.len(),
            cmp_reliable::<T>() ==> sorted_le(final(self)@),
            cmp_reliable::<T>() && cmp_antisymmetric::<T>() && sorted_le(old(self)@) ==> final(self)@ == old(self)@,
    {
        proof {
            vstd::seq_lib::to_multiset_len(old(self)@);
        }
        if self.state.len() <= 1 {
            proof {
                vstd::seq_lib::to_multiset_len(self@);
            }
            return ;
        }
        let chain = self.state.take_chain();
        let sorted = merge_sort(chain);
        self.rebuild_from_sorted_list(sorted);
        proof {
            if cmp_reliable::<T>() && cmp_antisymmetric::<T>() && sorted_le(old(self)@) {
                crate::laws::lemma_sorted_permutation_unique(self@, old(self)@);
            }
        }
    }

    /// Reattaches a sorted chain, walking it once to re-derive the size.
    fn rebuild_from_sorted_list(&mut self, head: Option<Box<Node<T>>>)
        requires
            old(self).wf(),
            old(self)@.len() == 0,
            chain_view(head).len() <= usize::MAX,
        ensures
            final(self).wf(),
            final(self)@ == chain_view(head),
    {
        self.state.set_chain(head);
    }
}

impl<T> List<T> for SinglyLinkedList<T> {
    open spec fn seq(&self) -> Seq<T> {
        self@
    }

    open spec fn inv(&self) -> bool {
        self.wf()
    }

    fn len(&self) -> (r: usize) {
        self.state.len()
    }

    fn is_empty(&self) -> (r: bool) {
        self.state.len() == 0
    }

    fn head(&self) -> (r: Option<&T>) {
        self.state.head()
    }

    fn last(&self) -> (r: Option<&T>) {
        self.state.last()
    }

    fn get(&self, index: usize) -> (r: Result<&T, DSError>) {
        self.state.get(index)
    }

    /// Appends the new element at the back of the list.
    fn push(&mut self, payload: T)
        ensures
            final(self)@ == old(self)@.push(payload),
    {
        proof {
            vstd::seq_lib::to_multiset_build(old(self)@, payload);
        }
        self.state.push_back(payload);
    }

    fn pop_back(&mut self) -> (r: Option<T>) {
        self.state.pop_back()
    }

    fn pop_front(&mut self) -> (r: Option<T>) {
        self.state.pop_front()
    }

    fn remove(&mut self, index: usize) -> (r: Result<T, DSError>) {
        self.state.remove(index)
    }

    fn clear(&mut self) {
        self.state.clear()
    }

    /// Returns the index of the first element equal to `value`, or `None`.
    fn find(&self, value: &T) -> (r: Option<usize>) where T: PartialEq
        ensures
            T::obeys_eq_spec() ==> match r {
                Some(i) => i < self@.len() && self@[i as int].eq_spec(value) && forall|j: int|
                    0 <= j < i ==> !(#[trigger] self@[j]).eq_spec(value),
                None => forall|j: int|
                    0 <= j < self@.len() ==> !(#[trigger] self@[j]).eq_spec(value),
            },
    {
        self.state.find_eq(value)
    }
}

} // verus!
