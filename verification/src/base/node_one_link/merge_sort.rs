use super::node::{chain_view, Node};
use crate::order::{cmp_reliable, le_spec, lemma_cons_sorted, lemma_flip_not_le, sorted_le};
use vstd::multiset::Multiset;
use vstd::pervasive::unreached;
use vstd::prelude::*;
use vstd::std_specs::cmp::PartialOrdSpec;

verus! {

/// Counts the nodes of a chain.
pub fn chain_len<T>(chain: &Option<Box<Node<T>>>) -> (r: usize)
    requires
        chain_view(*chain).len() <= usize::MAX,
    ensures
        r == chain_view(*chain).len(),
{
    let ghost whole = chain_view(*chain);
    let mut cur: &Option<Box<Node<T>>> = chain;
    let mut n: usize = 0;
    loop
        invariant
            n + chain_view(*cur).len() == whole.len(),
            whole.len() <= usize::MAX,
        ensures
            n == whole.len(),
        decreases chain_view(*cur).len(),
    {
        match cur {
            None => {
                assert(chain_view(*cur) =~= Seq::<T>::empty());
                break ;
            }
            Some(node) => {
                assert(chain_view(*cur) == seq![node.payload] + chain_view(node.next));
                n = n + 1;
                cur = &node.next;
            }
        }
    }
    n
}

/// Splits a chain in two: the first `k` nodes keep their order and the rest
/// follow as the second half; only links are rewritten.
pub fn chain_split<T>(chain: Option<Box<Node<T>>>, k: usize) -> (r: (
    Option<Box<Node<T>>>,
    Option<Box<Node<T>>>,
))
    requires
        k <= chain_view(chain).len(),
    ensures
        chain_view(r.0) == chain_view(chain).take(k as int),
        chain_view(r.1) == chain_view(chain).skip(k as int),
    decreases k,
{
    let ghost whole = chain_view(chain);
    if k == 0 {
        assert(whole.take(0) =~= Seq::<T>::empty());
        assert(whole.skip(0) =~= whole);
        (None, chain)
    } else {
        match chain {
            None => unreached(),
            Some(mut boxed) => {
                let mut rest: Option<Box<Node<T>>> = None;
                std::mem::swap(&mut rest, &mut boxed.next);
                let ghost r = chain_view(rest);
                assert(whole == seq![boxed.payload] + r);
                let (left, right) = chain_split(rest, k - 1);
                boxed.next = left;
                proof {
                    assert(chain_view(Some(boxed)) == seq![boxed.payload] + r.take(k - 1));
                    assert(seq![boxed.payload] + r.take(k - 1) =~= whole.take(k as int));
                    assert(r.skip(k - 1) =~= whole.skip(k as int));
                }
                (Some(boxed), right)
            }
        }
    }
}

/// Merges two chains by repeatedly relinking the smaller-or-equal-fronted
/// node onto the result; ties prefer the left chain. The result holds
/// exactly the nodes of both inputs, and is sorted whenever both inputs are
/// sorted and the comparison is dependable.
fn merge<T: PartialOrd + Default>(left: Option<Box<Node<T>>>, right: Option<Box<Node<T>>>) -> (r:
    Option<Box<Node<T>>>)
    ensures
        chain_view(r).to_multiset() == chain_view(left).to_multiset().add(
            chain_view(right).to_multiset(),
        ),
        chain_view(r).len() == chain_view(left).len() + chain_view(right).len(),
        cmp_reliable::<T>() && sorted_le(chain_view(left)) && sorted_le(chain_view(right))
            ==> sorted_le(chain_view(r)),
    decreases chain_view(left).len() + chain_view(right).len(),
{
    broadcast use vstd::seq_lib::group_to_multiset_ensures;
    broadcast use vstd::seq_lib::lemma_multiset_commutative;

    let ghost lv = chain_view(left);
    let ghost rv = chain_view(right);
    match left {
        None => {
            assert(lv.to_multiset() =~= Multiset::<T>::empty()) by {
                assert(lv =~= Seq::<T>::empty());
            }
            assert(chain_view(right).to_multiset() =~= lv.to_multiset().add(
                chain_view(right).to_multiset(),
            ));
            right
        }
        Some(mut lbox) => {
            match right {
                None => {
                    assert(rv.to_multiset() =~= Multiset::<T>::empty()) by {
                        assert(rv =~= Seq::<T>::empty());
                    }
                    assert(lv.to_multiset() =~= lv.to_multiset().add(rv.to_multiset()));
                    Some(lbox)
                }
                Some(mut rbox) => {
                    if lbox.payload.le(&rbox.payload) {
                        let mut lrest: Option<Box<Node<T>>> = None;
                        std::mem::swap(&mut lrest, &mut lbox.next);
                        let ghost lrv = chain_view(lrest);
                        assert(lv == seq![lbox.payload] + lrv);
                        proof {
                            if cmp_reliable::<T>() && sorted_le(lv) {
                                lemma_cons_sorted(lbox.payload, lrv);
                            }
                        }
                        let merged = merge(lrest, Some(rbox));
                        let ghost mv = chain_view(merged);
                        let ghost p = lbox.payload;
                        lbox.next = merged;
                        proof {
                            assert(chain_view(Some(lbox)) == seq![p] + mv);
                            lemma_seq_multiset_cons(p, mv);
                            lemma_seq_multiset_cons(p, lrv);
                            assert((seq![p] + mv).to_multiset() =~= lv.to_multiset().add(
                                rv.to_multiset(),
                            ));
                            if cmp_reliable::<T>() && sorted_le(lv) && sorted_le(rv) {
                                assert(le_spec(p, rv[0]));
                                assert forall|i: int| 0 <= i < mv.len() implies le_spec(
                                    p,
                                    #[trigger] mv[i],
                                ) by {
                                    assert(mv.to_multiset().contains(mv[i]));
                                    assert(lrv.to_multiset().contains(mv[i])
                                        || rv.to_multiset().contains(mv[i]));
                                    if lrv.to_multiset().contains(mv[i]) {
                                        assert(lrv.contains(mv[i]));
                                        let j = choose|j: int|
                                            0 <= j < lrv.len() && lrv[j] == mv[i];
                                        assert(le_spec(p, lrv[j]));
                                    } else {
                                        assert(rv.contains(mv[i]));
                                        let j = choose|j: int| 0 <= j < rv.len() && rv[j] == mv[i];
                                        if j > 0 {
                                            assert(le_spec(rv[0], rv[j]));
                                        }
                                        assert(le_spec(p, rv[j]));
                                    }
                                }
                                lemma_cons_sorted(p, mv);
                            }
                        }
                        Some(lbox)
                    } else {
                        let mut rrest: Option<Box<Node<T>>> = None;
                        std::mem::swap(&mut rrest, &mut rbox.next);
                        let ghost rrv = chain_view(rrest);
                        assert(rv == seq![rbox.payload] + rrv);
                        proof {
                            if cmp_reliable::<T>() && sorted_le(rv) {
                                lemma_cons_sorted(rbox.payload, rrv);
                            }
                        }
                        let merged = merge(Some(lbox), rrest);
                        let ghost mv = chain_view(merged);
                        let ghost q = rbox.payload;
                        rbox.next = merged;
                        proof {
                            assert(chain_view(Some(rbox)) == seq![q] + mv);
                            lemma_seq_multiset_cons(q, mv);
                            lemma_seq_multiset_cons(q, rrv);
                            assert((seq![q] + mv).to_multiset() =~= lv.to_multiset().add(
                                rv.to_multiset(),
                            ));
                            if cmp_reliable::<T>() && sorted_le(lv) && sorted_le(rv) {
                                assert(le_spec(q, lv[0])) by {
                                    lemma_flip_not_le(lv[0], q);
                                }
                                assert forall|i: int| 0 <= i < mv.len() implies le_spec(
                                    q,
                                    #[trigger] mv[i],
                                ) by {
                                    assert(mv.to_multiset().contains(mv[i]));
                                    assert(lv.to_multiset().contains(mv[i])
                                        || rrv.to_multiset().contains(mv[i]));
                                    if lv.to_multiset().contains(mv[i]) {
                                        assert(lv.contains(mv[i]));
                                        let j = choose|j: int| 0 <= j < lv.len() && lv[j] == mv[i];
                                        if j > 0 {
                                            assert(le_spec(lv[0], lv[j]));
                                        }
                                        assert(le_spec(q, lv[j]));
                                    } else {
                                        assert(rrv.contains(mv[i]));
                                        let j = choose|j: int|
                                            0 <= j < rrv.len() && rrv[j] == mv[i];
                                        assert(le_spec(q, rrv[j]));
                                    }
                                }
                                lemma_cons_sorted(q, mv);
                            }
                        }
                        Some(rbox)
                    }
                }
            }
        }
    }
}

/// A chain with one node linked in front holds that node's payload once more
/// than the rest.
proof fn lemma_seq_multiset_cons<T>(p: T, s: Seq<T>)
    ensures
        (seq![p] + s).to_multiset() == s.to_multiset().insert(p),
{
    broadcast use vstd::seq_lib::group_to_multiset_ensures;

    assert(seq![p] + s =~= s.insert(0, p));
}

/// Sorts a chain by relinking its nodes: split in half, sort each half,
/// merge. The result holds exactly the nodes of the input; under a
/// dependable comparison it is sorted in non-decreasing order.
pub fn merge_sort<T: PartialOrd + Default>(head: Option<Box<Node<T>>>) -> (r: Option<
    Box<Node<T>>,
>)
    requires
        chain_view(head).len() <= usize::MAX,
    ensures
        chain_view(r).to_multiset() == chain_view(head).to_multiset(),
        chain_view(r).len() == chain_view(head).len(),
        cmp_reliable::<T>() ==> sorted_le(chain_view(r)),
    decreases chain_view(head).len(),
{
    broadcast use vstd::seq_lib::lemma_multiset_commutative;

    let ghost whole = chain_view(head);
    let single = match &head {
        None => true,
        Some(node) => node.next.is_none(),
    };
    if single {
        proof {
            if head is Some {
                assert(whole == seq![head.unwrap().payload] + chain_view(head.unwrap().next));
            }
        }
        return head;
    }
    proof {
        let first = head.unwrap();
        assert(whole == seq![first.payload] + chain_view(first.next));
        let second = first.next.unwrap();
        assert(chain_view(first.next) == seq![second.payload] + chain_view(second.next));
        assert(whole.len() >= 2);
    }
    let n = chain_len(&head);
    let (front, back) = chain_split(head, n / 2);
    proof {
        assert(whole.take((n / 2) as int).len() < whole.len());
        assert(whole.skip((n / 2) as int).len() < whole.len());
    }
    let front_sorted = merge_sort(front);
    let back_sorted = merge_sort(back);
    let r = merge(front_sorted, back_sorted);
    proof {
        assert(whole.take((n / 2) as int) + whole.skip((n / 2) as int) =~= whole);
        assert(chain_view(r).to_multiset() == whole.to_multiset());
    }
    r
}

} // verus!

