use crate::order::{
    cmp_antisymmetric, cmp_reliable, le_spec, lemma_lex_flip, lemma_lex_trans_le,
    lemma_linear_insert_pos_is_first, linear_insert, lt_spec, sorted_le,
};
use crate::tree::part::PathPart;
use std::cmp::Ordering;
use vstd::pervasive::cloned;
use vstd::prelude::*;
use vstd::relations::total_ordering;
use vstd::std_specs::cmp::PartialOrdSpec;
use vstd::utf8::encode_utf8;

verus! {

/// The built-in integer comparisons are dependable and tell values apart:
/// every order promise the sorted flavors make under those premises holds
/// outright for lists of machine integers.
pub proof fn lemma_integers_cmp_reliable()
    ensures
        cmp_reliable::<u8>() && cmp_antisymmetric::<u8>(),
        cmp_reliable::<u64>() && cmp_antisymmetric::<u64>(),
        cmp_reliable::<usize>() && cmp_antisymmetric::<usize>(),
        cmp_reliable::<i32>() && cmp_antisymmetric::<i32>(),
        cmp_reliable::<i64>() && cmp_antisymmetric::<i64>(),
{
}

/// The component comparison is dependable: it always answers, flips under
/// exchange, agrees with equality, and is transitive. Every order promise
/// the sorted lists make therefore holds outright for path components.
pub proof fn lemma_path_part_cmp_reliable()
    ensures
        cmp_reliable::<PathPart>(),
{
    assert forall|a: PathPart, b: PathPart|
        #[trigger] a.partial_cmp_spec(&b) == Some(Ordering::Less) <==> #[trigger] b.partial_cmp_spec(
            &a,
        ) == Some(Ordering::Greater) by {
        lemma_lex_flip(encode_utf8(a@), encode_utf8(b@));
    }
    assert forall|a: PathPart, b: PathPart, c: PathPart|
        #[trigger] le_spec(a, b) && #[trigger] le_spec(b, c)
            implies le_spec(a, c) by {
        lemma_lex_trans_le(encode_utf8(a@), encode_utf8(b@), encode_utf8(c@));
    }
}

/// One operation of the list family, written over the sequence view exactly
/// as the corresponding method's contract describes it.
pub enum ListOp<T> {
    PushBack(T),
    PushFront(T),
    Insert(usize, T),
    Remove(usize),
    PopBack,
    PopFront,
}

/// The view after one operation: a refused insertion or removal, or a pop on
/// an empty list, changes nothing.
pub open spec fn apply_op<T>(s: Seq<T>, op: ListOp<T>) -> Seq<T> {
    match op {
        ListOp::PushBack(x) => s.push(x),
        ListOp::PushFront(x) => seq![x] + s,
        ListOp::Insert(i, x) => if i <= s.len() {
            s.insert(i as int, x)
        } else {
            s
        },
        ListOp::Remove(i) => if i < s.len() {
            s.remove(i as int)
        } else {
            s
        },
        ListOp::PopBack => if s.len() > 0 {
            s.drop_last()
        } else {
            s
        },
        ListOp::PopFront => if s.len() > 0 {
            s.drop_first()
        } else {
            s
        },
    }
}

/// How one operation changes the count: one more for a successful insertion,
/// one less for a successful removal, nothing for a refused or empty one.
pub open spec fn op_delta<T>(s: Seq<T>, op: ListOp<T>) -> int {
    match op {
        ListOp::PushBack(_) => 1,
        ListOp::PushFront(_) => 1,
        ListOp::Insert(i, _) => if i <= s.len() {
            1int
        } else {
            0
        },
        ListOp::Remove(i) => if i < s.len() {
            -1int
        } else {
            0
        },
        ListOp::PopBack => if s.len() > 0 {
            -1int
        } else {
            0
        },
        ListOp::PopFront => if s.len() > 0 {
            -1int
        } else {
            0
        },
    }
}

/// The view after a whole run of operations, first to last.
pub open spec fn apply_ops<T>(s: Seq<T>, ops: Seq<ListOp<T>>) -> Seq<T>
    decreases ops.len(),
{
    if ops.len() == 0 {
        s
    } else {
        apply_ops(apply_op(s, ops[0]), ops.drop_first())
    }
}

/// The count change over a whole run of operations.
pub open spec fn ops_delta<T>(s: Seq<T>, ops: Seq<ListOp<T>>) -> int
    decreases ops.len(),
{
    if ops.len() == 0 {
        0
    } else {
        op_delta(s, ops[0]) + ops_delta(apply_op(s, ops[0]), ops.drop_first())
    }
}

/// After any run of operations the length equals the starting length plus
/// the successful insertions minus the successful removals, each operation's
/// effect being what its contract states.
pub proof fn lemma_size_invariant<T>(s: Seq<T>, ops: Seq<ListOp<T>>)
    ensures
        apply_ops(s, ops).len() == s.len() + ops_delta(s, ops),
    decreases ops.len(),
{
    if ops.len() > 0 {
        assert(apply_op(s, ops[0]).len() == s.len() + op_delta(s, ops[0]));
        lemma_size_invariant(apply_op(s, ops[0]), ops.drop_first());
    }
}

/// Materializing a list and rebuilding a list from the result reproduces the
/// original sequence, element for element, whenever cloning is faithful.
/// `v` stands for the materialized vector's view and `rebuilt` for the new
/// list's view, each element a clone of its source as the conversions
/// promise.
pub proof fn lemma_round_trip_plain<T: Clone>(l: Seq<T>, v: Seq<T>, rebuilt: Seq<T>)
    requires
        v.len() == l.len(),
        forall|i: int| 0 <= i < l.len() ==> cloned::<T>(l[i], #[trigger] v[i]),
        rebuilt.len() == v.len(),
        forall|i: int| 0 <= i < v.len() ==> cloned::<T>(v[i], #[trigger] rebuilt[i]),
        forall|a: T, b: T| #[trigger] cloned::<T>(a, b) ==> a == b,
    ensures
        rebuilt == l,
{
    assert forall|i: int| 0 <= i < l.len() implies rebuilt[i] == l[i] by {
        assert(cloned::<T>(l[i], v[i]));
        assert(cloned::<T>(v[i], rebuilt[i]));
    }
    assert(rebuilt =~= l);
}

/// Feeding a sorted sequence back into a sorted list in order puts every
/// element at the end: the linear-scan insertion of `s[i]` into the first
/// `i` elements of `s` rebuilds the first `i + 1` elements. A sorted list's
/// materialize-and-rebuild round trip therefore reproduces it.
pub proof fn lemma_round_trip_sorted<T: PartialOrd>(s: Seq<T>, i: int)
    requires
        cmp_reliable::<T>(),
        sorted_le(s),
        0 <= i < s.len(),
    ensures
        linear_insert(s.take(i), s[i]) == s.take(i + 1),
{
    let prefix = s.take(i);
    assert forall|j: int| 0 <= j < i implies !lt_spec(s[i], #[trigger] prefix[j]) by {
        assert(prefix[j] == s[j]);
        assert(le_spec(s[j], s[i]));
        if lt_spec(s[i], s[j]) {
            assert(s[j].partial_cmp_spec(&s[i]) == Some(Ordering::Greater));
        }
    }
    lemma_linear_insert_pos_is_first(prefix, s[i], i);
    assert(linear_insert(prefix, s[i]) =~= s.take(i + 1));
}

/// Of any multiset of elements there is only one sorted arrangement, when
/// the comparison is dependable and tells values apart: two sorted sequences
/// holding the same elements are equal. In particular, sorting an already
/// sorted list gives back the very same sequence.
pub proof fn lemma_sorted_permutation_unique<T: PartialOrd>(x: Seq<T>, y: Seq<T>)
    requires
        cmp_reliable::<T>(),
        cmp_antisymmetric::<T>(),
        sorted_le(x),
        sorted_le(y),
        x.to_multiset() == y.to_multiset(),
    ensures
        x == y,
{
    let leq = |a: T, b: T| le_spec(a, b);
    assert forall|a: T| #[trigger] leq(a, a) by {
        assert(a.partial_cmp_spec(&a) is Some);
        if a.partial_cmp_spec(&a) == Some(Ordering::Less) {
            assert(a.partial_cmp_spec(&a) == Some(Ordering::Greater));
        }
    }
    assert forall|a: T, b: T| #[trigger] leq(a, b) && #[trigger] leq(b, a) implies a == b by {
        if a.partial_cmp_spec(&b) == Some(Ordering::Less) {
            assert(b.partial_cmp_spec(&a) == Some(Ordering::Greater));
        }
        assert(a.partial_cmp_spec(&b) == Some(Ordering::Equal));
    }
    assert forall|a: T, b: T| #[trigger] leq(a, b) || #[trigger] leq(b, a) by {
        crate::order::lemma_le_total(a, b);
    }
    assert(total_ordering(leq));
    assert(vstd::relations::sorted_by(x, leq));
    assert(vstd::relations::sorted_by(y, leq));
    vstd::seq_lib::lemma_sorted_unique(x, y, leq);
    assert(x =~= y);
}

} // verus!
