use crate::base::error::DSError;
use crate::base::node_one_link::iter::Iter;
use crate::base::node_one_link::merge_sort::chain_len;
use crate::base::node_one_link::node::{
    chain_get, chain_get_mut, chain_insert, chain_last, chain_pop_back, chain_pop_front,
    chain_push_back, chain_push_front, chain_remove, chain_view, Node,
};
use vstd::pervasive::{cloned, unreached};
use vstd::std_specs::cmp::PartialEqSpec;
use vstd::prelude::*;

verus! {

/// The shared engine of every list flavor: the head of an owned node chain
/// and a size counter that always equals the chain's true length.
pub struct ListCommon<T> {
    head: Option<Box<Node<T>>>,
    size: usize,
}

impl<T> View for ListCommon<T> {
    type V = Seq<T>;

    closed spec fn view(&self) -> Seq<T> {
        chain_view(self.head)
    }
}

impl<T> ListCommon<T> {
    /// Well-formedness: the size counter equals the chain's true length.
    /// Constructors establish it and every method preserves it.
    pub closed spec fn wf(self) -> bool {
        self.size == chain_view(self.head).len()
    }

    /// A well-formed engine's length fits the machine's size type.
    pub proof fn lemma_wf_len_bound(&self)
        requires
            self.wf(),
        ensures
            self@.len() <= usize::MAX,
    {
    }

    /// Creates an empty engine.
    pub fn new() -> (r: Self)
        ensures
            r@ =~= Seq::<T>::empty(),
            r.wf(),
    {
        ListCommon { head: None, size: 0 }
    }

    /// Returns the number of elements in the list.
    pub fn len(&self) -> (r: usize)
        requires
            self.wf(),
        ensures
            r == self@.len(),
    {
        self.size
    }

    /// Borrows the first payload, or `None` on an empty list.
    pub fn head(&self) -> (r: Option<&T>)
        ensures
            match r {
                None => self@.len() == 0,
                Some(x) => self@.len() > 0 && *x == self@[0],
            },
    {
        match &self.head {
            None => None,
            Some(node) => Some(&node.payload),
        }
    }

    /// Borrows the last payload, or `None` on an empty list.
    pub fn last(&self) -> (r: Option<&T>)
        ensures
            match r {
                None => self@.len() == 0,
                Some(x) => self@.len() > 0 && *x == self@.last(),
            },
    {
        chain_last(&self.head)
    }

    /// Starts a borrowing cursor at the head of the list.
    pub fn iter(&self) -> (r: Iter<'_, T>)
        ensures
            r.remaining() == self@,
    {
        match &self.head {
            None => Iter::new(None),
            Some(boxed) => Iter::new(Some(&**boxed)),
        }
    }

    /// Starts a mutable cursor at the head of the list; each of its steps
    /// takes the list back as its argument.
    pub fn iter_mut(&self) -> (r: IterMut)
        ensures
            r.position() == 0,
    {
        IterMut::new()
    }

    /// Hands the list to a consuming cursor that pops from the front.
    pub fn into_iter(self) -> (r: IntoIter<T>)
        requires
            self.wf(),
        ensures
            r.wf(),
            r@ == self@,
    {
        IntoIter::new(self)
    }

    /// Appends a payload at the end of the list.
    pub fn push_back(&mut self, payload: T)
        requires
            old(self).wf(),
            old(self)@.len() < usize::MAX,
        ensures
            final(self).wf(),
            final(self)@ == old(self)@.push(payload),
    {
        let mut chain: Option<Box<Node<T>>> = None;
        std::mem::swap(&mut chain, &mut self.head);
        chain_push_back(&mut chain, payload);
        self.head = chain;
        self.size = self.size + 1;
    }

    /// Links a payload in front of the list.
    pub fn push_front(&mut self, payload: T)
        requires
            old(self).wf(),
            old(self)@.len() < usize::MAX,
        ensures
            final(self).wf(),
            final(self)@ == seq![payload] + old(self)@,
    {
        let mut chain: Option<Box<Node<T>>> = None;
        std::mem::swap(&mut chain, &mut self.head);
        chain_push_front(&mut chain, payload);
        self.head = chain;
        self.size = self.size + 1;
    }

    /// Removes the last element and returns it; `None` on an empty list.
    pub fn pop_back(&mut self) -> (r: Option<T>)
        requires
            old(self).wf(),
        ensures
            final(self).wf(),
            old(self)@.len() == 0 ==> r is None && final(self)@ == old(self)@,
            old(self)@.len() > 0 ==> r == Some(old(self)@.last()) && final(self)@ == old(self)@.drop_last(),
    {
        if self.size == 0 {
            None
        } else {
            let mut chain: Option<Box<Node<T>>> = None;
            std::mem::swap(&mut chain, &mut self.head);
            let payload = chain_pop_back(&mut chain);
            self.head = chain;
            self.size = self.size - 1;
            Some(payload)
        }
    }

    /// Removes the first element and returns it; `None` on an empty list.
    pub fn pop_front(&mut self) -> (r: Option<T>)
        requires
            old(self).wf(),
        ensures
            final(self).wf(),
            old(self)@.len() == 0 ==> r is None && final(self)@ == old(self)@,
            old(self)@.len() > 0 ==> r == Some(old(self)@[0]) && final(self)@ == old(self)@.drop_first(),
    {
        if self.size == 0 {
            None
        } else {
            let mut chain: Option<Box<Node<T>>> = None;
            std::mem::swap(&mut chain, &mut self.head);
            let payload = chain_pop_front(&mut chain);
            self.head = chain;
            self.size = self.size - 1;
            Some(payload)
        }
    }

    /// Splices a payload in at `index`; `index == len` appends. Fails with
    /// `IndexOutOfBounds` exactly when `index > len`, leaving the list as it
    /// was.
    pub fn insert(&mut self, index: usize, payload: T) -> (r: Result<(), DSError>)
        requires
            old(self).wf(),
            old(self)@.len() < usize::MAX,
        ensures
            final(self).wf(),
            index <= old(self)@.len() ==> r is Ok && final(self)@ == old(self)@.insert(
                index as int,
                payload,
            ),
            index > old(self)@.len() ==> r == Err::<(), DSError>(
                DSError::IndexOutOfBounds { index, len: old(self)@.len() as usize },
            ) && final(self)@ == old(self)@,
    {
        if index > self.size {
            return Err(DSError::IndexOutOfBounds { index, len: self.size });
        }
        let mut chain: Option<Box<Node<T>>> = None;
        std::mem::swap(&mut chain, &mut self.head);
        chain_insert(&mut chain, index, payload);
        self.head = chain;
        self.size = self.size + 1;
        Ok(())
    }

    /// Unlinks the element at `index` and returns it. Fails with
    /// `IndexOutOfBounds` exactly when `index >= len`, leaving the list as it
    /// was.
    pub fn remove(&mut self, index: usize) -> (r: Result<T, DSError>)
        requires
            old(self).wf(),
        ensures
            final(self).wf(),
            index < old(self)@.len() ==> r == Ok::<T, DSError>(old(self)@[index as int]) && final(self)@ == old(self)@.remove(index as int),
            index >= old(self)@.len() ==> r == Err::<T, DSError>(
                DSError::IndexOutOfBounds { index, len: old(self)@.len() as usize },
            ) && final(self)@ == old(self)@,
    {
        if index >= self.size {
            return Err(DSError::IndexOutOfBounds { index, len: self.size });
        }
        let mut chain: Option<Box<Node<T>>> = None;
        std::mem::swap(&mut chain, &mut self.head);
        let payload = chain_remove(&mut chain, index);
        self.head = chain;
        self.size = self.size - 1;
        Ok(payload)
    }

    /// Borrows the element at `index`. Fails with `IndexOutOfBounds` exactly
    /// when `index >= len`.
    pub fn get(&self, index: usize) -> (r: Result<&T, DSError>)
        requires
            self.wf(),
        ensures
            index < self@.len() ==> r is Ok && *r.unwrap() == self@[index as int],
            index >= self@.len() ==> r == Err::<&T, DSError>(
                DSError::IndexOutOfBounds { index, len: self@.len() as usize },
            ),
    {
        if index >= self.size {
            return Err(DSError::IndexOutOfBounds { index, len: self.size });
        }
        Ok(chain_get(&self.head, index))
    }

    /// Mutably borrows the element at `index`; the list afterwards holds, at
    /// that position, whatever the caller wrote through the borrow. Fails
    /// with `IndexOutOfBounds` exactly when `index >= len`.
    pub fn get_mut(&mut self, index: usize) -> (r: Result<&mut T, DSError>)
        requires
            old(self).wf(),
        ensures
            final(self).wf(),
            index < old(self)@.len() ==> r is Ok && *r.unwrap() == old(self)@[index as int]
                && final(self)@ == old(self)@.update(index as int, *final(r.unwrap())),
            index >= old(self)@.len() ==> r == Err::<&mut T, DSError>(
                DSError::IndexOutOfBounds { index, len: old(self)@.len() as usize },
            ) && final(self)@ == old(self)@,
    {
        if index >= self.size {
            return Err(DSError::IndexOutOfBounds { index, len: self.size });
        }
        match chain_get_mut(&mut self.head, index) {
            Some(payload) => Ok(payload),
            None => unreached(),
        }
    }

    /// Removes every element, releasing the nodes one by one from the front.
    pub fn clear(&mut self)
        requires
            old(self).wf(),
        ensures
            final(self).wf(),
            final(self)@ =~= Seq::<T>::empty(),
    {
        loop
            invariant
                self.wf(),
            ensures
                self.wf(),
                self@.len() == 0,
            decreases self@.len(),
        {
            if self.len() == 0 {
                break ;
            }
            let _ = self.pop_front();
        }
    }

    /// Detaches the whole chain from the engine, leaving it empty.
    pub(crate) fn take_chain(&mut self) -> (r: Option<Box<Node<T>>>)
        requires
            old(self).wf(),
        ensures
            final(self).wf(),
            final(self)@ =~= Seq::<T>::empty(),
            chain_view(r) == old(self)@,
    {
        let mut chain: Option<Box<Node<T>>> = None;
        std::mem::swap(&mut chain, &mut self.head);
        self.size = 0;
        chain
    }

    /// Attaches a chain to an empty engine, walking it once to re-derive the
    /// size counter.
    pub(crate) fn set_chain(&mut self, chain: Option<Box<Node<T>>>)
        requires
            old(self).wf(),
            old(self)@.len() == 0,
            chain_view(chain).len() <= usize::MAX,
        ensures
            final(self).wf(),
            final(self)@ == chain_view(chain),
    {
        let n = chain_len(&chain);
        self.head = chain;
        self.size = n;
    }

    /// Returns the index of the first element equal to `value`, or `None`.
    pub(crate) fn find_eq(&self, value: &T) -> (r: Option<usize>) where T: PartialEq
        requires
            self.wf(),
        ensures
            T::obeys_eq_spec() ==> match r {
                Some(i) => i < self@.len() && self@[i as int].eq_spec(value) && forall|j: int|
                    0 <= j < i ==> !(#[trigger] self@[j]).eq_spec(value),
                None => forall|j: int| 0 <= j < self@.len() ==> !(#[trigger] self@[j]).eq_spec(value),
            },
            r is Some ==> r.unwrap() < self@.len(),
    {
        let mut it = self.iter();
        let mut idx: usize = 0;
        loop
            invariant
                self.wf(),
                idx + it.remaining().len() == self@.len(),
                it.remaining() =~= self@.skip(idx as int),
                T::obeys_eq_spec() ==> forall|j: int|
                    0 <= j < idx ==> !(#[trigger] self@[j]).eq_spec(value),
            ensures
                idx == self@.len(),
                T::obeys_eq_spec() ==> forall|j: int|
                    0 <= j < idx ==> !(#[trigger] self@[j]).eq_spec(value),
            decreases it.remaining().len(),
        {
            match it.next() {
                None => {
                    break ;
                }
                Some(payload) => {
                    assert(*payload == self@[idx as int]);
                    if payload.eq(value) {
                        return Some(idx);
                    }
                    idx = idx + 1;
                }
            }
        }
        None
    }

    /// Returns the index of the first element satisfying the predicate, or
    /// `None`. The list itself is not changed.
    pub(crate) fn find_if<F: Fn(&T) -> bool>(&self, predicate: F) -> (r: Option<usize>)
        requires
            self.wf(),
            forall|t: &T| #[trigger] predicate.requires((t,)),
        ensures
            match r {
                Some(i) => i < self@.len() && call_ensures(predicate, (&self@[i as int],), true)
                    && forall|j: int|
                    0 <= j < i ==> call_ensures(predicate, (&(#[trigger] self@[j]),), false),
                None => forall|j: int|
                    0 <= j < self@.len() ==> call_ensures(predicate, (&(#[trigger] self@[j]),), false),
            },
    {
        let mut it = self.iter();
        let mut idx: usize = 0;
        loop
            invariant
                self.wf(),
                idx + it.remaining().len() == self@.len(),
                it.remaining() =~= self@.skip(idx as int),
                forall|t: &T| #[trigger] predicate.requires((t,)),
                forall|j: int|
                    0 <= j < idx ==> call_ensures(predicate, (&(#[trigger] self@[j]),), false),
            ensures
                idx == self@.len(),
                forall|j: int|
                    0 <= j < idx ==> call_ensures(predicate, (&(#[trigger] self@[j]),), false),
            decreases it.remaining().len(),
        {
            match it.next() {
                None => {
                    break ;
                }
                Some(payload) => {
                    assert(*payload == self@[idx as int]);
                    if predicate(payload) {
                        return Some(idx);
                    }
                    idx = idx + 1;
                }
            }
        }
        None
    }

    /// Copies every element, in order, into a fresh vector. The list is not
    /// changed; each vector slot holds a clone of the element at its index.
    pub fn to_vec(&self) -> (r: Vec<T>) where T: Clone
        requires
            self.wf(),
        ensures
            r@.len() == self@.len(),
            forall|i: int| 0 <= i < self@.len() ==> cloned::<T>(self@[i], #[trigger] r@[i]),
    {
        let mut vec: Vec<T> = Vec::with_capacity(self.size);
        let mut it = self.iter();
        loop
            invariant
                vec@.len() + it.remaining().len() == self@.len(),
                it.remaining() =~= self@.skip(vec@.len() as int),
                forall|i: int| 0 <= i < vec@.len() ==> cloned::<T>(self@[i], #[trigger] vec@[i]),
            ensures
                vec@.len() == self@.len(),
                forall|i: int| 0 <= i < vec@.len() ==> cloned::<T>(self@[i], #[trigger] vec@[i]),
            decreases it.remaining().len(),
        {
            match it.next() {
                None => {
                    break ;
                }
                Some(payload) => {
                    vec.push(payload.clone());
                }
            }
        }
        vec
    }
}

/// A mutable cursor: it tracks a position, and each step mutably borrows
/// the list afresh and yields the element there. Only one yielded borrow is
/// alive at a time, so the list stays consistent between steps.
pub struct IterMut {
    pos: usize,
}

impl IterMut {
    /// The position of the next element to yield.
    pub closed spec fn position(self) -> int {
        self.pos as int
    }

    /// Starts a mutable cursor at the head of a list.
    pub fn new() -> (r: Self)
        ensures
            r.position() == 0,
    {
        IterMut { pos: 0 }
    }

    /// Mutably borrows the element at the cursor and advances it; `None`
    /// once the position is past the end. The list afterwards holds, at the
    /// visited position, whatever the caller wrote through the borrow.
    pub fn next<'a, T>(&mut self, list: &'a mut ListCommon<T>) -> (r: Option<&'a mut T>)
        requires
            old(list).wf(),
        ensures
            final(list).wf(),
            old(self).position() >= old(list)@.len() ==> r is None && final(list)@ == old(
                list,
            )@ && final(self).position() == old(self).position(),
            old(self).position() < old(list)@.len() ==> {
                &&& r is Some
                &&& *r.unwrap() == old(list)@[old(self).position()]
                &&& final(list)@ == old(list)@.update(old(self).position(), *final(r.unwrap()))
                &&& final(self).position() == old(self).position() + 1
            },
    {
        if self.pos >= list.len() {
            return None;
        }
        let current = self.pos;
        self.pos = current + 1;
        match list.get_mut(current) {
            Ok(payload) => Some(payload),
            Err(_) => unreached(),
        }
    }
}

impl<T> Drop for ListCommon<T> {
    /// Releases the whole chain iteratively, one node at a time from the
    /// front, so that a long list cannot exhaust the call stack on teardown.
    fn drop(&mut self)
        opens_invariants none
        no_unwind
    {
        let mut chain: Option<Box<Node<T>>> = None;
        std::mem::swap(&mut chain, &mut self.head);
        loop
            decreases chain_view(chain).len(),
        {
            let mut taken: Option<Box<Node<T>>> = None;
            std::mem::swap(&mut taken, &mut chain);
            match taken {
                None => {
                    break ;
                }
                Some(mut boxed) => {
                    std::mem::swap(&mut chain, &mut boxed.next);
                }
            }
        }
    }
}

/// A consuming cursor: owns the list and pops from the front at every step.
/// When it is done or dropped early, the remaining nodes are released with it.
pub struct IntoIter<T> {
    list: ListCommon<T>,
}

impl<T> View for IntoIter<T> {
    type V = Seq<T>;

    closed spec fn view(&self) -> Seq<T> {
        self.list@
    }
}

impl<T> IntoIter<T> {
    /// Well-formedness: the engine inside is well formed.
    pub closed spec fn wf(self) -> bool {
        self.list.wf()
    }

    /// Takes ownership of an engine and iterates it destructively.
    pub fn new(list: ListCommon<T>) -> (r: Self)
        requires
            list.wf(),
        ensures
            r.wf(),
            r@ == list@,
    {
        IntoIter { list }
    }

    /// Pops the front element, or `None` once the list is drained.
    pub fn next(&mut self) -> (r: Option<T>)
        requires
            old(self).wf(),
        ensures
            final(self).wf(),
            old(self)@.len() == 0 ==> r is None && final(self)@ == old(self)@,
            old(self)@.len() > 0 ==> r == Some(old(self)@[0]) && final(self)@ == old(self)@.drop_first(),
    {
        if self.list.len() == 0 {
            None
        } else {
            self.list.pop_front()
        }
    }
}

} // verus!
