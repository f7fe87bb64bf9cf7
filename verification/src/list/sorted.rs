use crate::base::error::DSError;
use crate::base::node_one_link::iter::Iter;
use crate::list::api::List;
use crate::list::common::{IntoIter, ListCommon};
use crate::order::{
    cmp_reliable, le_spec, lemma_cons_sorted, lemma_linear_insert_pos_is_first,
    lemma_linear_insert_sorted, lt_spec, sorted_le,
};
use vstd::pervasive::cloned;
use vstd::prelude::*;
use vstd::std_specs::cmp::{PartialEqSpec, PartialOrdSpec};

verus! {

/// A list that keeps its elements sorted, with a fast path for the extremes:
/// a new element is checked against the head and the tail first, so the
/// smallest and largest land in constant time; anything else falls back to
/// the same linear splice the plain ordered flavor uses.
pub struct SortedList<T> {
    state: ListCommon<T>,
}

impl<T> View for SortedList<T> {
    type V = Seq<T>;

    closed spec fn view(&self) -> Seq<T> {
        self.state@
    }
}

impl<T> SortedList<T> {
    /// Valid-state condition: the engine inside is well formed.
    pub closed spec fn wf(&self) -> bool {
        self.state.wf()
    }

    /// Creates an empty sorted list.
    pub fn new() -> (r: Self)
        ensures
            r.wf(),
            r@ =~= Seq::<T>::empty(),
    {
        SortedList { state: ListCommon::new() }
    }

    /// Builds a list from clones of the slice's elements; under a dependable
    /// comparison the result is sorted, whatever order the slice had.
    pub fn from_slice(slice: &[T]) -> (r: Self) where T: Clone + PartialOrd
        ensures
            r.wf(),
            r@.len() == slice@.len(),
            cmp_reliable::<T>() ==> sorted_le(r@),
    {
        let mut list = SortedList::new();
        let mut i: usize = 0;
        while i < slice.len()
            invariant
                list.wf(),
                i <= slice@.len(),
                list@.len() == i,
                cmp_reliable::<T>() ==> sorted_le(list@),
            decreases slice@.len() - i,
        {
            list.push(slice[i].clone());
            i = i + 1;
        }
        list
    }

    /// Copies every element, in order, into a fresh vector; the list is not
    /// changed.
    pub fn to_vec(&self) -> (r: Vec<T>) where T: Clone
        requires
            self.wf(),
        ensures
            r@.len() == self@.len(),
            forall|i: int| 0 <= i < self@.len() ==> cloned::<T>(self@[i], #[trigger] r@[i]),
    {
        self.state.to_vec()
    }


    /// Mutably borrows the element at `index`; the list afterwards holds, at
    /// that position, whatever the caller wrote through the borrow. Fails
    /// with `IndexOutOfBounds` exactly when `index >= len`.
    pub fn get_mut(&mut self, index: usize) -> (r: Result<&mut T, DSError>)
        requires
            old(self).wf(),
        ensures
            final(self).wf(),
            index < old(self)@.len() ==> r is Ok && *r.unwrap() == old(self)@[index as int]
                && final(self)@ == old(self)@.update(index as int, *final(r.unwrap())),
            index >= old(self)@.len() ==> r == Err::<&mut T, DSError>(
                DSError::IndexOutOfBounds { index, len: old(self)@.len() as usize },
            ) && final(self)@ == old(self)@,
    {
        self.state.get_mut(index)
    }

    /// Starts a borrowing cursor at the head of the list.
    pub fn iter(&self) -> (r: Iter<'_, T>)
        ensures
            r.remaining() == self@,
    {
        self.state.iter()
    }

    /// Hands the list to a consuming cursor that pops from the front.
    pub fn into_iter(self) -> (r: IntoIter<T>)
        requires
            self.wf(),
        ensures
            r.wf(),
            r@ == self@,
    {
        self.state.into_iter()
    }

    /// Returns the index of the first element satisfying the predicate, or
    /// `None`; the list is not changed.
    pub fn find_if<F: Fn(&T) -> bool>(&self, predicate: F) -> (r: Option<usize>) where
        T: PartialOrd,

        requires
            self.wf(),
            forall|t: &T| #[trigger] predicate.requires((t,)),
        ensures
            match r {
                Some(i) => i < self@.len() && call_ensures(predicate, (&self@[i as int],), true)
                    && forall|j: int|
                    0 <= j < i ==> call_ensures(predicate, (&(#[trigger] self@[j]),), false),
                None => forall|j: int|
                    0 <= j < self@.len() ==> call_ensures(
                        predicate,
                        (&(#[trigger] self@[j]),),
                        false,
                    ),
            },
    {
        self.state.find_if(predicate)
    }

    /// Splices a new element into the middle by the same linear scan the
    /// plain ordered flavor uses: directly before the first element it is
    /// strictly less than.
    fn insert_in_middle(&mut self, payload: T) where T: PartialOrd
        requires
            old(self).wf(),
            old(self)@.len() < usize::MAX,
        ensures
            final(self).wf(),
            exists|i: int|
                0 <= i <= old(self)@.len() && final(self)@ == old(self)@.insert(i, payload),
            cmp_reliable::<T>() && sorted_le(old(self)@) ==> sorted_le(final(self)@),
    {
        broadcast use vstd::seq_lib::group_to_multiset_ensures;

        let ghost s = self@;
        proof {
            self.state.lemma_wf_len_bound();
        }
        let mut it = self.state.iter();
        let mut idx: usize = 0;
        loop
            invariant
                self.wf(),
                s == self@,
                s == old(self)@,
                s.len() < usize::MAX,
                idx + it.remaining().len() == s.len(),
                it.remaining() =~= s.skip(idx as int),
                T::obeys_partial_cmp_spec() ==> forall|j: int|
                    0 <= j < idx ==> !lt_spec(payload, #[trigger] s[j]),
            ensures
                idx == s.len(),
                T::obeys_partial_cmp_spec() ==> forall|j: int|
                    0 <= j < idx ==> !lt_spec(payload, #[trigger] s[j]),
            decreases it.remaining().len(),
        {
            match it.next() {
                None => {
                    break ;
                }
                Some(elem) => {
                    assert(*elem == s[idx as int]);
                    if payload.lt(elem) {
                        proof {
                            if T::obeys_partial_cmp_spec() {
                                lemma_linear_insert_pos_is_first(s, payload, idx as int);
                            }
                            if cmp_reliable::<T>() && sorted_le(s) {
                                lemma_linear_insert_sorted(s, payload);
                            }
                        }
                        let r = self.state.insert(idx, payload);
                        proof {
                            assert(r is Ok);
                        }
                        return ;
                    }
                    idx = idx + 1;
                }
            }
        }
        proof {
            if T::obeys_partial_cmp_spec() {
                lemma_linear_insert_pos_is_first(s, payload, s.len() as int);
            }
            if cmp_reliable::<T>() && sorted_le(s) {
                lemma_linear_insert_sorted(s, payload);
            }
        }
        let r = self.state.insert(idx, payload);
        proof {
            assert(r is Ok);
        }
    }
}

impl<T: PartialOrd> List<T> for SortedList<T> {
    open spec fn seq(&self) -> Seq<T> {
        self@
    }

    open spec fn inv(&self) -> bool {
        self.wf()
    }

    fn len(&self) -> (r: usize) {
        self.state.len()
    }

    fn is_empty(&self) -> (r: bool) {
        self.state.len() == 0
    }

    fn head(&self) -> (r: Option<&T>) {
        self.state.head()
    }

    fn last(&self) -> (r: Option<&T>) {
        self.state.last()
    }

    fn get(&self, index: usize) -> (r: Result<&T, DSError>) {
        self.state.get(index)
    }

    /// Adds the new element at a sorted position: the head when it is not
    /// greater than the head, the tail when it is not less than the tail,
    /// else by the linear splice. A sorted list stays sorted under a
    /// dependable comparison.
    fn push(&mut self, payload: T)
        ensures
            exists|i: int|
                0 <= i <= old(self)@.len() && final(self)@ == old(self)@.insert(i, payload),
            cmp_reliable::<T>() && sorted_le(old(self)@) ==> sorted_le(final(self)@),
    {
        broadcast use vstd::seq_lib::group_to_multiset_ensures;

        let ghost s = self@;
        if self.state.len() == 0 {
            self.state.push_back(payload);
            proof {
                assert(self@ =~= s.insert(0, payload));
            }
            return ;
        }
        let goes_front = payload.le(self.state.head().unwrap());
        if goes_front {
            self.state.push_front(payload);
            proof {
                assert(self@ =~= s.insert(0, payload));
                if cmp_reliable::<T>() && sorted_le(s) {
                    assert(le_spec(payload, s[0]));
                    assert forall|i: int| 0 <= i < s.len() implies le_spec(
                        payload,
                        #[trigger] s[i],
                    ) by {
                        if i > 0 {
                            assert(le_spec(s[0], s[i]));
                        }
                    }
                    lemma_cons_sorted(payload, s);
                    assert(self@ == seq![payload] + s);
                }
            }
            return ;
        }
        let goes_back = {
            let tail = self.state.last().unwrap();
            tail.le(&payload)
        };
        if goes_back {
            self.state.push_back(payload);
            proof {
                assert(self@ =~= s.insert(s.len() as int, payload));
                if cmp_reliable::<T>() && sorted_le(s) {
                    assert(le_spec(s.last(), payload));
                    assert forall|i: int, j: int| 0 <= i < j < self@.len() implies le_spec(
                        #[trigger] self@[i],
                        #[trigger] self@[j],
                    ) by {
                        if j < s.len() {
                            assert(le_spec(s[i], s[j]));
                        } else {
                            assert(self@[j] == payload);
                            if i < s.len() - 1 {
                                assert(le_spec(s[i], s.last()));
                            }
                        }
                    }
                }
            }
            return ;
        }
        self.insert_in_middle(payload);
    }

    fn pop_back(&mut self) -> (r: Option<T>) {
        self.state.pop_back()
    }

    fn pop_front(&mut self) -> (r: Option<T>) {
        self.state.pop_front()
    }

    fn remove(&mut self, index: usize) -> (r: Result<T, DSError>) {
        self.state.remove(index)
    }

    fn clear(&mut self) {
        self.state.clear()
    }

    /// Returns the index of the first element equal to `value`, leaving the
    /// scan early as soon as an element greater than `value` turns up: on a
    /// sorted list under a dependable comparison nothing past that point can
    /// match.
    fn find(&self, value: &T) -> (r: Option<usize>) where T: PartialEq
        ensures
            cmp_reliable::<T>() && sorted_le(self@) ==> match r {
                Some(i) => i < self@.len() && self@[i as int].eq_spec(value) && forall|j: int|
                    0 <= j < i ==> !(#[trigger] self@[j]).eq_spec(value),
                None => forall|j: int|
                    0 <= j < self@.len() ==> !(#[trigger] self@[j]).eq_spec(value),
            },
    {
        let ghost s = self@;
        proof {
            self.state.lemma_wf_len_bound();
        }
        let mut it = self.state.iter();
        let mut idx: usize = 0;
        loop
            invariant
                self.wf(),
                s == self@,
                s.len() <= usize::MAX,
                idx + it.remaining().len() == s.len(),
                it.remaining() =~= s.skip(idx as int),
                T::obeys_eq_spec() ==> forall|j: int|
                    0 <= j < idx ==> !(#[trigger] s[j]).eq_spec(value),
            ensures
                idx == s.len(),
                T::obeys_eq_spec() ==> forall|j: int|
                    0 <= j < idx ==> !(#[trigger] s[j]).eq_spec(value),
            decreases it.remaining().len(),
        {
            match it.next() {
                None => {
                    break ;
                }
                Some(payload) => {
                    assert(*payload == s[idx as int]);
                    if payload.eq(value) {
                        return Some(idx);
                    }
                    if payload.gt(value) {
                        proof {
                            if cmp_reliable::<T>() && sorted_le(s) {
                                assert forall|j: int| 0 <= j < s.len() implies !(
                                #[trigger] s[j]).eq_spec(value) by {
                                    if j > idx {
                                        assert(le_spec(s[idx as int], s[j]));
                                        if s[j].eq_spec(value) {
                                            assert(s[j].partial_cmp_spec(value) == Some(
                                                std::cmp::Ordering::Equal,
                                            ));
                                            assert(le_spec(s[j], *value));
                                            assert(le_spec(s[idx as int], *value));
                                            assert(s[idx as int].partial_cmp_spec(value) == Some(
                                                std::cmp::Ordering::Greater,
                                            ));
                                        }
                                    }
                                }
                            }
                        }
                        return None;
                    }
                    idx = idx + 1;
                }
            }
        }
        None
    }
}

} // verus!
