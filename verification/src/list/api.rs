use crate::base::error::DSError;
use vstd::prelude::*;
use vstd::std_specs::cmp::PartialEqSpec;

verus! {

/// Common API of the list flavors. An implementor names its content as a
/// sequence (`seq`) and a validity condition (`inv`) that its constructors
/// establish and every method keeps. `push` only promises that the new
/// element joins the content: each flavor says where it lands.
pub trait List<T>: Sized {
    /// The elements, in traversal order.
    spec fn seq(&self) -> Seq<T>;

    /// Valid-state condition threaded through every method.
    spec fn inv(&self) -> bool;

    /// Returns the number of elements.
    fn len(&self) -> (r: usize)
        requires
            self.inv(),
        ensures
            r == self.seq().len(),
    ;

    /// True exactly on an empty list.
    fn is_empty(&self) -> (r: bool)
        requires
            self.inv(),
        ensures
            r == (self.seq().len() == 0),
    ;

    /// Borrows the first element, or `None` on an empty list.
    fn head(&self) -> (r: Option<&T>)
        requires
            self.inv(),
        ensures
            match r {
                None => self.seq().len() == 0,
                Some(x) => self.seq().len() > 0 && *x == self.seq()[0],
            },
    ;

    /// Borrows the last element, or `None` on an empty list.
    fn last(&self) -> (r: Option<&T>)
        requires
            self.inv(),
        ensures
            match r {
                None => self.seq().len() == 0,
                Some(x) => self.seq().len() > 0 && *x == self.seq().last(),
            },
    ;

    /// Borrows the element at `index`; fails with `IndexOutOfBounds` exactly
    /// when `index >= len`.
    fn get(&self, index: usize) -> (r: Result<&T, DSError>)
        requires
            self.inv(),
        ensures
            index < self.seq().len() ==> r is Ok && *r.unwrap() == self.seq()[index as int],
            index >= self.seq().len() ==> r == Err::<&T, DSError>(
                DSError::IndexOutOfBounds { index, len: self.seq().len() as usize },
            ),
    ;

    /// Adds an element; where it lands is the flavor's own promise.
    fn push(&mut self, payload: T)
        requires
            old(self).inv(),
            old(self).seq().len() < usize::MAX,
        ensures
            final(self).inv(),
            final(self).seq().to_multiset() == old(self).seq().to_multiset().insert(payload),
            final(self).seq().len() == old(self).seq().len() + 1,
    ;

    /// Removes the last element and returns it; `None` on an empty list.
    fn pop_back(&mut self) -> (r: Option<T>)
        requires
            old(self).inv(),
        ensures
            final(self).inv(),
            old(self).seq().len() == 0 ==> r is None && final(self).seq() == old(self).seq(),
            old(self).seq().len() > 0 ==> r == Some(old(self).seq().last()) && final(self).seq()
                == old(self).seq().drop_last(),
    ;

    /// Removes the first element and returns it; `None` on an empty list.
    fn pop_front(&mut self) -> (r: Option<T>)
        requires
            old(self).inv(),
        ensures
            final(self).inv(),
            old(self).seq().len() == 0 ==> r is None && final(self).seq() == old(self).seq(),
            old(self).seq().len() > 0 ==> r == Some(old(self).seq()[0]) && final(self).seq()
                == old(self).seq().drop_first(),
    ;

    /// Unlinks the element at `index` and returns it; fails with
    /// `IndexOutOfBounds` exactly when `index >= len`, changing nothing.
    fn remove(&mut self, index: usize) -> (r: Result<T, DSError>)
        requires
            old(self).inv(),
        ensures
            final(self).inv(),
            index < old(self).seq().len() ==> r == Ok::<T, DSError>(
                old(self).seq()[index as int],
            ) && final(self).seq() == old(self).seq().remove(index as int),
            index >= old(self).seq().len() ==> r == Err::<T, DSError>(
                DSError::IndexOutOfBounds { index, len: old(self).seq().len() as usize },
            ) && final(self).seq() == old(self).seq(),
    ;

    /// Removes every element.
    fn clear(&mut self)
        requires
            old(self).inv(),
        ensures
            final(self).inv(),
            final(self).seq() =~= Seq::<T>::empty(),
    ;

    /// Returns the index of a matching element, or `None`. Each flavor says
    /// on its own when a match is owed; a returned index always names an
    /// element equal to `value`.
    fn find(&self, value: &T) -> (r: Option<usize>) where T: PartialEq
        requires
            self.inv(),
        ensures
            r is Some ==> r.unwrap() < self.seq().len(),
            T::obeys_eq_spec() ==> match r {
                Some(i) => self.seq()[i as int].eq_spec(value),
                None => true,
            },
    ;
}

} // verus!
