use vstd::pervasive::unreached;
use vstd::prelude::*;

verus! {

/// One cell of a singly-linked chain: a payload and the owning link to the
/// next cell, or `None` at the end of the chain.
pub struct Node<T> {
    pub payload: T,
    pub next: Option<Box<Node<T>>>,
}

/// The sequence of payloads reachable from a chain head, in link order.
pub open spec fn chain_view<T>(chain: Option<Box<Node<T>>>) -> Seq<T>
    decreases chain,
{
    match chain {
        None => Seq::empty(),
        Some(node) => seq![node.payload] + chain_view(node.next),
    }
}

impl<T> Node<T> {
    /// Wraps a payload in a fresh, unlinked node.
    pub fn new(payload: T) -> (r: Self)
        ensures
            r.payload == payload,
            r.next is None,
            r@ =~= seq![payload],
    {
        Node { payload, next: None }
    }
}

impl<T> View for Node<T> {
    type V = Seq<T>;

    open spec fn view(&self) -> Seq<T> {
        seq![self.payload] + chain_view(self.next)
    }
}

/// Appends a payload at the end of a chain.
pub fn chain_push_back<T>(chain: &mut Option<Box<Node<T>>>, payload: T)
    ensures
        chain_view(*final(chain)) == chain_view(*old(chain)).push(payload),
    decreases *old(chain),
{
    let mut taken: Option<Box<Node<T>>> = None;
    std::mem::swap(&mut taken, chain);
    match taken {
        None => {
            *chain = Some(Box::new(Node::new(payload)));
            assert(chain_view(*chain) =~= chain_view(*old(chain)).push(payload));
        }
        Some(mut boxed) => {
            chain_push_back(&mut boxed.next, payload);
            *chain = Some(boxed);
            assert(chain_view(*chain) =~= chain_view(*old(chain)).push(payload));
        }
    }
}

/// Links a payload in front of a chain.
pub fn chain_push_front<T>(chain: &mut Option<Box<Node<T>>>, payload: T)
    ensures
        chain_view(*final(chain)) == seq![payload] + chain_view(*old(chain)),
{
    let mut node = Node::new(payload);
    std::mem::swap(&mut node.next, chain);
    *chain = Some(Box::new(node));
    assert(chain_view(*chain) =~= seq![payload] + chain_view(*old(chain)));
}

/// Unlinks the first node of a non-empty chain and returns its payload.
pub fn chain_pop_front<T>(chain: &mut Option<Box<Node<T>>>) -> (r: T)
    requires
        chain_view(*old(chain)).len() > 0,
    ensures
        r == chain_view(*old(chain))[0],
        chain_view(*final(chain)) == chain_view(*old(chain)).drop_first(),
{
    let mut taken: Option<Box<Node<T>>> = None;
    std::mem::swap(&mut taken, chain);
    match taken {
        None => unreached(),
        Some(boxed) => {
            let node = *boxed;
            *chain = node.next;
            assert(chain_view(*chain) =~= chain_view(*old(chain)).drop_first());
            node.payload
        }
    }
}

/// Unlinks the last node of a non-empty chain and returns its payload.
pub fn chain_pop_back<T>(chain: &mut Option<Box<Node<T>>>) -> (r: T)
    requires
        chain_view(*old(chain)).len() > 0,
    ensures
        r == chain_view(*old(chain)).last(),
        chain_view(*final(chain)) == chain_view(*old(chain)).drop_last(),
    decreases *old(chain),
{
    let mut taken: Option<Box<Node<T>>> = None;
    std::mem::swap(&mut taken, chain);
    match taken {
        None => unreached(),
        Some(mut boxed) => {
            if boxed.next.is_none() {
                let node = *boxed;
                assert(chain_view(*chain) =~= chain_view(*old(chain)).drop_last());
                node.payload
            } else {
                let r = chain_pop_back(&mut boxed.next);
                *chain = Some(boxed);
                assert(chain_view(*chain) =~= chain_view(*old(chain)).drop_last());
                r
            }
        }
    }
}

/// Splices a payload in at position `index`, shifting the suffix one place.
pub fn chain_insert<T>(chain: &mut Option<Box<Node<T>>>, index: usize, payload: T)
    requires
        index <= chain_view(*old(chain)).len(),
    ensures
        chain_view(*final(chain)) == chain_view(*old(chain)).insert(index as int, payload),
    decreases *old(chain),
{
    if index == 0 {
        chain_push_front(chain, payload);
        assert(chain_view(*chain) =~= chain_view(*old(chain)).insert(0, payload));
    } else {
        let mut taken: Option<Box<Node<T>>> = None;
        std::mem::swap(&mut taken, chain);
        match taken {
            None => unreached(),
            Some(mut boxed) => {
                chain_insert(&mut boxed.next, index - 1, payload);
                *chain = Some(boxed);
                assert(chain_view(*chain) =~= chain_view(*old(chain)).insert(
                    index as int,
                    payload,
                ));
            }
        }
    }
}

/// Unlinks the node at position `index` and returns its payload.
pub fn chain_remove<T>(chain: &mut Option<Box<Node<T>>>, index: usize) -> (r: T)
    requires
        index < chain_view(*old(chain)).len(),
    ensures
        r == chain_view(*old(chain))[index as int],
        chain_view(*final(chain)) == chain_view(*old(chain)).remove(index as int),
    decreases *old(chain),
{
    if index == 0 {
        let r = chain_pop_front(chain);
        assert(chain_view(*chain) =~= chain_view(*old(chain)).remove(0));
        r
    } else {
        let mut taken: Option<Box<Node<T>>> = None;
        std::mem::swap(&mut taken, chain);
        match taken {
            None => unreached(),
            Some(mut boxed) => {
                let r = chain_remove(&mut boxed.next, index - 1);
                *chain = Some(boxed);
                assert(chain_view(*chain) =~= chain_view(*old(chain)).remove(index as int));
                r
            }
        }
    }
}

/// Borrows the payload at position `index`.
pub fn chain_get<'a, T>(chain: &'a Option<Box<Node<T>>>, index: usize) -> (r: &'a T)
    requires
        index < chain_view(*chain).len(),
    ensures
        *r == chain_view(*chain)[index as int],
    decreases index,
{
    match chain {
        None => unreached(),
        Some(node) => {
            if index == 0 {
                &node.payload
            } else {
                chain_get(&node.next, index - 1)
            }
        }
    }
}

/// Mutably borrows the payload at position `index`, or `None` past the end;
/// the chain afterwards holds whatever the caller wrote through the borrow,
/// in that position.
pub fn chain_get_mut<'a, T>(chain: &'a mut Option<Box<Node<T>>>, index: usize) -> (r: Option<
    &'a mut T,
>)
    ensures
        index >= chain_view(*old(chain)).len() ==> r is None && *final(chain) == *old(chain),
        index < chain_view(*old(chain)).len() ==> {
            &&& r is Some
            &&& *r.unwrap() == chain_view(*old(chain))[index as int]
            &&& chain_view(*final(chain)) =~= chain_view(*old(chain)).update(
                index as int,
                *final(r.unwrap()),
            )
        },
    decreases index,
    no_unwind
{
    match chain {
        None => None,
        Some(node) => {
            if index == 0 {
                Some(&mut node.payload)
            } else {
                chain_get_mut(&mut node.next, index - 1)
            }
        }
    }
}

/// Borrows the payload of the last node, or `None` on an empty chain.
pub fn chain_last<'a, T>(chain: &'a Option<Box<Node<T>>>) -> (r: Option<&'a T>)
    ensures
        match r {
            None => chain_view(*chain).len() == 0,
            Some(x) => chain_view(*chain).len() > 0 && *x == chain_view(*chain).last(),
        },
    decreases *chain,
{
    match chain {
        None => {
            assert(chain_view(*chain) =~= Seq::<T>::empty());
            None
        }
        Some(node) => {
            assert(chain_view(*chain) == seq![node.payload] + chain_view(node.next));
            match &node.next {
                None => {
                    assert(chain_view(node.next) =~= Seq::<T>::empty());
                    assert(chain_view(*chain) =~= seq![node.payload]);
                    Some(&node.payload)
                }
                Some(_) => {
                    let r = chain_last(&node.next);
                    assert(chain_view(*chain) == seq![node.payload] + chain_view(node.next));
                    assert(chain_view(node.next).len() > 0);
                    assert(chain_view(*chain).last() == chain_view(node.next).last());
                    r
                }
            }
        }
    }
}

} // verus!
