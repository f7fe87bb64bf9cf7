use super::node::{chain_view, Node};
use vstd::prelude::*;

verus! {

/// A borrowing cursor over a chain: yields the payloads in link order.
/// Creating one borrows the chain, so no mutation can run while it is alive.
pub struct Iter<'a, T> {
    current: Option<&'a Node<T>>,
}

impl<'a, T> Iter<'a, T> {
    /// The payloads this cursor has yet to yield, in order.
    pub closed spec fn remaining(self) -> Seq<T> {
        match self.current {
            None => Seq::empty(),
            Some(node) => node@,
        }
    }

    /// Starts a cursor at the given chain head.
    pub fn new(head: Option<&'a Node<T>>) -> (r: Self)
        ensures
            r.remaining() == match head {
                None => Seq::<T>::empty(),
                Some(node) => node@,
            },
    {
        Iter { current: head }
    }

    /// Yields a borrow of the next payload, or `None` past the end.
    pub fn next(&mut self) -> (r: Option<&'a T>)
        ensures
            old(self).remaining().len() == 0 ==> r is None && final(self).remaining()
                == old(self).remaining(),
            old(self).remaining().len() > 0 ==> {
                &&& r is Some
                &&& *r.unwrap() == old(self).remaining()[0]
                &&& final(self).remaining() == old(self).remaining().drop_first()
            },
    {
        match self.current {
            None => None,
            Some(node) => {
                let payload = &node.payload;
                self.current = match &node.next {
                    None => None,
                    Some(boxed) => Some(&**boxed),
                };
                proof {
                    assert(node@ == seq![node.payload] + chain_view(node.next));
                    assert(self.remaining() =~= node@.drop_first());
                }
                Some(payload)
            }
        }
    }
}

} // verus!
