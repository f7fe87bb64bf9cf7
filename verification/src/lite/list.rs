use crate::base::node_one_link::iter::Iter as ChainIter;
use crate::list::common::{IterMut as CommonIterMut, ListCommon};
use vstd::prelude::*;
use vstd::std_specs::cmp::PartialEqSpec;

pub mod error;

verus! {

/// The error type of the outside error-wrapping crate; opaque here, it only
/// carries the out-of-bounds report out of `insert` and `remove`.
#[verifier::external_type_specification]
#[verifier::external_body]
pub struct ExAnyhowError(anyhow::Error);

/// Relies on `anyhow::Error::msg`: wraps the out-of-bounds message into an
/// error value.
#[verifier::external_body]
fn index_out_of_bounds_error() -> anyhow::Error {
    anyhow::Error::msg("index out of bounds")
}

/// One cell of a chain: a payload and the owning link to the next cell. Its
/// view is the sequence of payloads reachable from it, in link order.
pub struct Node<T> {
    payload: T,
    next: Option<Box<Node<T>>>,
}

impl<T> View for Node<T> {
    type V = Seq<T>;

    closed spec fn view(&self) -> Seq<T> {
        self.seq_of()
    }
}

impl<T> Node<T> {
    /// The payloads reachable from this node, in link order.
    closed spec fn seq_of(self) -> Seq<T>
        decreases self,
    {
        match self.next {
            None => seq![self.payload],
            Some(n) => seq![self.payload] + n.seq_of(),
        }
    }

    /// Wraps a payload in a fresh, unlinked node.
    pub fn new(payload: T) -> (r: Self)
        ensures
            r@ =~= seq![payload],
    {
        Node { payload, next: None }
    }

    /// Borrows the payload.
    pub fn payload(&self) -> (r: &T)
        ensures
            *r == self@[0],
    {
        &self.payload
    }

    /// Borrows the next node, or `None` at the end of a chain.
    pub fn next(&self) -> (r: Option<&Node<T>>)
        ensures
            match r {
                None => self@.len() == 1,
                Some(n) => n@ == self@.drop_first(),
            },
    {
        match &self.next {
            None => None,
            Some(boxed) => {
                proof {
                    assert(self@ == seq![self.payload] + boxed@);
                    assert(boxed@ =~= self@.drop_first());
                }
                Some(&**boxed)
            }
        }
    }
}

/// A standalone singly-linked list: constant-time front operations, linear
/// walks for everything index-based, and the single out-of-bounds error for
/// `insert` and `remove`.
pub struct List<T> {
    state: ListCommon<T>,
}

impl<T> View for List<T> {
    type V = Seq<T>;

    closed spec fn view(&self) -> Seq<T> {
        self.state@
    }
}

impl<T> List<T> {
    /// Valid-state condition: the engine inside is well formed.
    pub closed spec fn wf(&self) -> bool {
        self.state.wf()
    }

    /// Creates an empty list.
    pub fn new() -> (r: Self)
        ensures
            r.wf(),
            r@ =~= Seq::<T>::empty(),
    {
        List { state: ListCommon::new() }
    }

    /// Returns the list size.
    pub fn len(&self) -> (r: usize)
        requires
            self.wf(),
        ensures
            r == self@.len(),
    {
        self.state.len()
    }

    /// True exactly on an empty list.
    pub fn is_empty(&self) -> (r: bool)
        requires
            self.wf(),
        ensures
            r == (self@.len() == 0),
    {
        self.state.len() == 0
    }

    /// Borrows the payload of the first node, or `None` on an empty list.
    pub fn head(&self) -> (r: Option<&T>)
        ensures
            match r {
                None => self@.len() == 0,
                Some(x) => self@.len() > 0 && *x == self@[0],
            },
    {
        self.state.head()
    }

    /// Borrows the payload of the last node, or `None` on an empty list.
    pub fn last(&self) -> (r: Option<&T>)
        ensures
            match r {
                None => self@.len() == 0,
                Some(x) => self@.len() > 0 && *x == self@.last(),
            },
    {
        self.state.last()
    }

    /// Starts a borrowing cursor over the payloads, in chain order.
    pub fn iter(&self) -> (r: Iter<'_, T>)
        ensures
            r.remaining() == self@,
    {
        Iter { inner: self.state.iter() }
    }

    /// Starts a mutable cursor at the head of the list; each of its steps
    /// takes the list back as its argument.
    pub fn iter_mut(&self) -> (r: IterMut)
        ensures
            r.position() == 0,
    {
        IterMut { inner: CommonIterMut::new() }
    }

    /// Hands the list to a consuming cursor that pops from the front.
    pub fn into_iter(self) -> (r: IntoIter<T>)
        requires
            self.wf(),
        ensures
            r.wf(),
            r@ == self@,
    {
        IntoIter { list: self }
    }

    /// Appends a new node at the end of the list.
    pub fn push_back(&mut self, payload: T)
        requires
            old(self).wf(),
            old(self)@.len() < usize::MAX,
        ensures
            final(self).wf(),
            final(self)@ == old(self)@.push(payload),
    {
        self.state.push_back(payload);
    }

    /// Links a new node in front of the list.
    pub fn push_front(&mut self, payload: T)
        requires
            old(self).wf(),
            old(self)@.len() < usize::MAX,
        ensures
            final(self).wf(),
            final(self)@ == seq![payload] + old(self)@,
    {
        self.state.push_front(payload);
    }

    /// Removes the last node and returns its payload; `None` on an empty
    /// list.
    pub fn pop_back(&mut self) -> (r: Option<T>)
        requires
            old(self).wf(),
        ensures
            final(self).wf(),
            old(self)@.len() == 0 ==> r is None && final(self)@ == old(self)@,
            old(self)@.len() > 0 ==> r == Some(old(self)@.last()) && final(self)@ == old(
                self,
            )@.drop_last(),
    {
        self.state.pop_back()
    }

    /// Removes the first node and returns its payload; `None` on an empty
    /// list.
    pub fn pop_front(&mut self) -> (r: Option<T>)
        requires
            old(self).wf(),
        ensures
            final(self).wf(),
            old(self)@.len() == 0 ==> r is None && final(self)@ == old(self)@,
            old(self)@.len() > 0 ==> r == Some(old(self)@[0]) && final(self)@ == old(
                self,
            )@.drop_first(),
    {
        self.state.pop_front()
    }

    /// Splices a new node in at `index`; `index == len` appends. Errs
    /// exactly when `index > len`, leaving the list as it was.
    pub fn insert(&mut self, index: usize, payload: T) -> (r: Result<(), anyhow::Error>)
        requires
            old(self).wf(),
            old(self)@.len() < usize::MAX,
        ensures
            final(self).wf(),
            index <= old(self)@.len() ==> r is Ok && final(self)@ == old(self)@.insert(
                index as int,
                payload,
            ),
            index > old(self)@.len() ==> r is Err && final(self)@ == old(self)@,
    {
        if index > self.state.len() {
            return Err(index_out_of_bounds_error());
        }
        let inner = self.state.insert(index, payload);
        proof {
            assert(inner is Ok);
        }
        Ok(())
    }

    /// Unlinks the node at `index` and returns its payload. Errs exactly
    /// when `index >= len`, leaving the list as it was.
    pub fn remove(&mut self, index: usize) -> (r: Result<T, anyhow::Error>)
        requires
            old(self).wf(),
        ensures
            final(self).wf(),
            index < old(self)@.len() ==> (r matches Ok(p) && p == old(self)@[index as int])
                && final(self)@ == old(self)@.remove(index as int),
            index >= old(self)@.len() ==> r is Err && final(self)@ == old(self)@,
    {
        if index >= self.state.len() {
            return Err(index_out_of_bounds_error());
        }
        match self.state.remove(index) {
            Ok(payload) => Ok(payload),
            Err(_) => {
                proof {
                    assert(false);
                }
                Err(index_out_of_bounds_error())
            }
        }
    }

    /// Returns the index of the first node whose payload equals `value`, or
    /// `None`; the list is not changed.
    pub fn find(&self, value: &T) -> (r: Option<usize>) where T: PartialEq
        requires
            self.wf(),
        ensures
            T::obeys_eq_spec() ==> match r {
                Some(i) => i < self@.len() && self@[i as int].eq_spec(value) && forall|j: int|
                    0 <= j < i ==> !(#[trigger] self@[j]).eq_spec(value),
                None => forall|j: int|
                    0 <= j < self@.len() ==> !(#[trigger] self@[j]).eq_spec(value),
            },
            r is Some ==> r.unwrap() < self@.len(),
    {
        self.state.find_eq(value)
    }
}

/// A borrowing cursor over a list's payloads, in chain order.
pub struct Iter<'a, T> {
    inner: ChainIter<'a, T>,
}

impl<'a, T> Iter<'a, T> {
    /// The payloads this cursor has yet to yield, in order.
    pub closed spec fn remaining(self) -> Seq<T> {
        self.inner.remaining()
    }

    /// Yields a borrow of the next payload, or `None` past the end.
    pub fn next(&mut self) -> (r: Option<&'a T>)
        ensures
            old(self).remaining().len() == 0 ==> r is None && final(self).remaining()
                == old(self).remaining(),
            old(self).remaining().len() > 0 ==> {
                &&& r is Some
                &&& *r.unwrap() == old(self).remaining()[0]
                &&& final(self).remaining() == old(self).remaining().drop_first()
            },
    {
        self.inner.next()
    }
}

/// A mutable cursor: it tracks a position, and each step mutably borrows
/// the list afresh and yields the payload there.
pub struct IterMut {
    inner: CommonIterMut,
}

impl IterMut {
    /// The position of the next payload to yield.
    pub closed spec fn position(self) -> int {
        self.inner.position()
    }

    /// Mutably borrows the payload at the cursor and advances it; `None`
    /// once the position is past the end. The list afterwards holds, at the
    /// visited position, whatever the caller wrote through the borrow.
    pub fn next<'a, T>(&mut self, list: &'a mut List<T>) -> (r: Option<&'a mut T>)
        requires
            old(list).wf(),
        ensures
            final(list).wf(),
            old(self).position() >= old(list)@.len() ==> r is None && final(list)@ == old(
                list,
            )@ && final(self).position() == old(self).position(),
            old(self).position() < old(list)@.len() ==> {
                &&& r is Some
                &&& *r.unwrap() == old(list)@[old(self).position()]
                &&& final(list)@ == old(list)@.update(old(self).position(), *final(r.unwrap()))
                &&& final(self).position() == old(self).position() + 1
            },
    {
        self.inner.next(&mut list.state)
    }
}

/// A consuming cursor: owns the list and pops from the front at every step;
/// any nodes left when it is dropped early are released with it.
pub struct IntoIter<T> {
    list: List<T>,
}

impl<T> View for IntoIter<T> {
    type V = Seq<T>;

    closed spec fn view(&self) -> Seq<T> {
        self.list@
    }
}

impl<T> IntoIter<T> {
    /// Well-formedness: the list inside is well formed.
    pub closed spec fn wf(self) -> bool {
        self.list.wf()
    }

    /// Pops the front payload, or `None` once the list is drained.
    pub fn next(&mut self) -> (r: Option<T>)
        requires
            old(self).wf(),
        ensures
            final(self).wf(),
            old(self)@.len() == 0 ==> r is None && final(self)@ == old(self)@,
            old(self)@.len() > 0 ==> r == Some(old(self)@[0]) && final(self)@ == old(
                self,
            )@.drop_first(),
    {
        if self.list.is_empty() {
            None
        } else {
            self.list.pop_front()
        }
    }
}

} // verus!
