use std::cmp::Ordering;
use vstd::prelude::*;
use vstd::std_specs::cmp::{PartialEqSpec, PartialOrdSpec};

verus! {

/// `a` is less than or equal to `b` under the order that `T`'s
/// `partial_cmp` describes.
pub open spec fn le_spec<T: PartialOrd>(a: T, b: T) -> bool {
    a.partial_cmp_spec(&b) matches Some(Ordering::Less | Ordering::Equal)
}

/// `a` is strictly less than `b` under the order that `T`'s `partial_cmp`
/// describes.
pub open spec fn lt_spec<T: PartialOrd>(a: T, b: T) -> bool {
    a.partial_cmp_spec(&b) == Some(Ordering::Less)
}

/// The element type's comparison is dependable: the executable `partial_cmp`
/// follows its specification, never answers "incomparable", is consistent
/// with equality, flips under exchange of arguments, and is transitive.
/// Everything the sorted flavors promise about element order holds under
/// this premise; integers satisfy it, and a type with an unlawful
/// `PartialOrd` gets no order promise.
pub open spec fn cmp_reliable<T: PartialOrd>() -> bool {
    &&& T::obeys_eq_spec()
    &&& T::obeys_partial_cmp_spec()
    &&& forall|a: T, b: T| (#[trigger] a.partial_cmp_spec(&b)) is Some
    &&& forall|a: T, b: T|
        a.eq_spec(&b) <==> #[trigger] a.partial_cmp_spec(&b) == Some(Ordering::Equal)
    &&& forall|a: T, b: T|
        #[trigger] a.partial_cmp_spec(&b) == Some(Ordering::Less) <==> #[trigger] b.partial_cmp_spec(&a)
            == Some(Ordering::Greater)
    &&& forall|a: T, b: T, c: T|
        #[trigger] le_spec(a, b) && #[trigger] le_spec(b, c) ==> le_spec(a, c)
}

/// The comparison tells values apart: two elements that `partial_cmp` calls
/// equal are the same value. Integers have it; a type ordered by only part
/// of its fields does not.
pub open spec fn cmp_antisymmetric<T: PartialOrd>() -> bool {
    forall|a: T, b: T| #[trigger] a.partial_cmp_spec(&b) == Some(Ordering::Equal) ==> a == b
}

/// The sequence is non-decreasing under `le_spec`.
pub open spec fn sorted_le<T: PartialOrd>(s: Seq<T>) -> bool {
    forall|i: int, j: int| 0 <= i < j < s.len() ==> le_spec(#[trigger] s[i], #[trigger] s[j])
}

/// Under a dependable comparison, `le_spec` is total: of any two elements,
/// one is less than or equal to the other.
pub proof fn lemma_le_total<T: PartialOrd>(a: T, b: T)
    requires
        cmp_reliable::<T>(),
    ensures
        le_spec(a, b) || le_spec(b, a),
{
    assert(a.partial_cmp_spec(&b) is Some);
    assert(b.partial_cmp_spec(&a) is Some);
}

/// Prepending `p` to a sequence is sorted exactly when the sequence is
/// sorted and `p` is less than or equal to each of its elements.
pub proof fn lemma_cons_sorted<T: PartialOrd>(p: T, s: Seq<T>)
    ensures
        sorted_le(seq![p] + s) <==> (sorted_le(s) && (forall|i: int|
            0 <= i < s.len() ==> le_spec(p, #[trigger] s[i]))),
{
    let c = seq![p] + s;
    assert(c.len() == 1 + s.len());
    assert(c[0] == p);
    assert(forall|i: int| 0 <= i < s.len() ==> c[i + 1] == #[trigger] s[i]);
    if sorted_le(c) {
        assert forall|i: int, j: int| 0 <= i < j < s.len() implies le_spec(
            #[trigger] s[i],
            #[trigger] s[j],
        ) by {
            assert(le_spec(c[i + 1], c[j + 1]));
        }
        assert forall|i: int| 0 <= i < s.len() implies le_spec(p, #[trigger] s[i]) by {
            assert(le_spec(c[0], c[i + 1]));
        }
    }
    if sorted_le(s) && (forall|i: int| 0 <= i < s.len() ==> le_spec(p, #[trigger] s[i])) {
        assert forall|i: int, j: int| 0 <= i < j < c.len() implies le_spec(
            #[trigger] c[i],
            #[trigger] c[j],
        ) by {
            if i == 0 {
                assert(c[j] == s[j - 1]);
            } else {
                assert(c[i] == s[i - 1] && c[j] == s[j - 1]);
                assert(le_spec(s[i - 1], s[j - 1]));
            }
        }
    }
}

/// Where a stable linear scan puts `x` into `s`: directly before the first
/// element that `x` is strictly less than, or at the end when there is none.
/// New elements therefore land after the elements they tie with.
pub open spec fn linear_insert_pos<T: PartialOrd>(s: Seq<T>, x: T) -> int
    decreases s.len(),
{
    if s.len() == 0 {
        0
    } else if lt_spec(x, s[0]) {
        0
    } else {
        1 + linear_insert_pos(s.drop_first(), x)
    }
}

/// The sequence after a stable linear-scan insertion of `x` into `s`.
pub open spec fn linear_insert<T: PartialOrd>(s: Seq<T>, x: T) -> Seq<T> {
    s.insert(linear_insert_pos(s, x), x)
}

/// The linear-scan position is within bounds.
pub proof fn lemma_linear_insert_pos_bounds<T: PartialOrd>(s: Seq<T>, x: T)
    ensures
        0 <= linear_insert_pos(s, x) <= s.len(),
    decreases s.len(),
{
    if s.len() != 0 && !lt_spec(x, s[0]) {
        lemma_linear_insert_pos_bounds(s.drop_first(), x);
    }
}

/// The linear-scan position is the first index whose element `x` is
/// strictly less than: an index with nothing strictly greater before it and
/// something strictly greater at it (or the end) is that position.
pub proof fn lemma_linear_insert_pos_is_first<T: PartialOrd>(s: Seq<T>, x: T, i: int)
    requires
        0 <= i <= s.len(),
        forall|j: int| 0 <= j < i ==> !lt_spec(x, #[trigger] s[j]),
        i < s.len() ==> lt_spec(x, s[i]),
    ensures
        linear_insert_pos(s, x) == i,
    decreases s.len(),
{
    if s.len() == 0 {
    } else if i == 0 {
    } else {
        assert(!lt_spec(x, s[0]));
        let rest = s.drop_first();
        assert(forall|j: int| 0 <= j < i - 1 ==> !lt_spec(x, #[trigger] rest[j])) by {
            assert(forall|j: int| 0 <= j < rest.len() ==> #[trigger] rest[j] == s[j + 1]);
        }
        lemma_linear_insert_pos_is_first(rest, x, i - 1);
    }
}

/// Under a dependable comparison, the stable linear-scan insertion keeps a
/// sorted sequence sorted.
pub proof fn lemma_linear_insert_sorted<T: PartialOrd>(s: Seq<T>, x: T)
    requires
        cmp_reliable::<T>(),
        sorted_le(s),
    ensures
        sorted_le(linear_insert(s, x)),
        linear_insert(s, x).len() == s.len() + 1,
        linear_insert(s, x).to_multiset() == s.to_multiset().insert(x),
    decreases s.len(),
{
    broadcast use vstd::seq_lib::group_to_multiset_ensures;

    let p = linear_insert_pos(s, x);
    lemma_linear_insert_pos_bounds(s, x);
    let r = linear_insert(s, x);
    assert(r.len() == s.len() + 1);
    assert(forall|j: int| 0 <= j < p ==> #[trigger] r[j] == s[j]);
    assert(r[p] == x);
    assert(forall|j: int| p < j < r.len() ==> #[trigger] r[j] == s[j - 1]);
    lemma_linear_pos_prefix(s, x);
    assert forall|j: int| 0 <= j < p implies le_spec(#[trigger] s[j], x) by {
        assert(!lt_spec(x, s[j]));
        assert(s[j].partial_cmp_spec(&x) is Some);
        assert(x.partial_cmp_spec(&s[j]) is Some);
        if x.partial_cmp_spec(&s[j]) == Some(Ordering::Greater) {
            assert(s[j].partial_cmp_spec(&x) == Some(Ordering::Less));
        } else {
            assert(x.partial_cmp_spec(&s[j]) == Some(Ordering::Equal));
            assert(s[j].partial_cmp_spec(&x) != Some(Ordering::Greater));
            assert(s[j].partial_cmp_spec(&x) != Some(Ordering::Less));
        }
    }
    assert forall|j: int| p <= j < s.len() implies le_spec(x, #[trigger] s[j]) by {
        assert(lt_spec(x, s[p]));
        if j > p {
            assert(le_spec(x, s[p]));
            assert(le_spec(s[p], s[j]));
        }
    }
    assert forall|i: int, j: int| 0 <= i < j < r.len() implies le_spec(
        #[trigger] r[i],
        #[trigger] r[j],
    ) by {
        if i < p && j < p {
        } else if i < p && j == p {
            assert(le_spec(s[i], x));
        } else if i < p && j > p {
            assert(le_spec(s[i], s[j - 1]));
        } else if i == p && j > p {
            assert(le_spec(x, s[j - 1]));
        } else if i > p && j > p {
            assert(le_spec(s[i - 1], s[j - 1]));
        }
    }
}

/// Under a dependable comparison, "not `a <= b`" flips to "`b <= a`".
pub proof fn lemma_flip_not_le<T: PartialOrd>(a: T, b: T)
    requires
        cmp_reliable::<T>(),
        !le_spec(a, b),
    ensures
        le_spec(b, a),
        lt_spec(b, a),
{
    assert(a.partial_cmp_spec(&b) is Some);
    assert(a.partial_cmp_spec(&b) == Some(Ordering::Greater));
    assert(b.partial_cmp_spec(&a) == Some(Ordering::Less));
}

/// Lexicographic comparison of two byte sequences: decided by the first
/// position where they differ, a proper prefix coming first.
pub open spec fn lex_cmp(a: Seq<u8>, b: Seq<u8>) -> Ordering
    decreases a.len(),
{
    if a.len() == 0 && b.len() == 0 {
        Ordering::Equal
    } else if a.len() == 0 {
        Ordering::Less
    } else if b.len() == 0 {
        Ordering::Greater
    } else if a[0] < b[0] {
        Ordering::Less
    } else if a[0] > b[0] {
        Ordering::Greater
    } else {
        lex_cmp(a.drop_first(), b.drop_first())
    }
}

/// The lexicographic comparison flips under exchange of its arguments.
pub proof fn lemma_lex_flip(a: Seq<u8>, b: Seq<u8>)
    ensures
        lex_cmp(a, b) == Ordering::Less <==> lex_cmp(b, a) == Ordering::Greater,
        lex_cmp(a, b) == Ordering::Equal <==> lex_cmp(b, a) == Ordering::Equal,
    decreases a.len(),
{
    if a.len() > 0 && b.len() > 0 && a[0] == b[0] {
        lemma_lex_flip(a.drop_first(), b.drop_first());
    }
}

/// The lexicographic order is transitive on its non-strict side.
pub proof fn lemma_lex_trans_le(a: Seq<u8>, b: Seq<u8>, c: Seq<u8>)
    requires
        lex_cmp(a, b) != Ordering::Greater,
        lex_cmp(b, c) != Ordering::Greater,
    ensures
        lex_cmp(a, c) != Ordering::Greater,
    decreases a.len(),
{
    if a.len() == 0 {
    } else {
        assert(b.len() > 0);
        assert(c.len() > 0);
        assert(a[0] <= b[0]);
        assert(b[0] <= c[0]);
        if a[0] == c[0] {
            assert(a[0] == b[0] && b[0] == c[0]);
            lemma_lex_trans_le(a.drop_first(), b.drop_first(), c.drop_first());
        }
    }
}

/// Every element before the linear-scan position is not strictly greater
/// than the inserted one.
pub proof fn lemma_linear_pos_prefix<T: PartialOrd>(s: Seq<T>, x: T)
    ensures
        forall|j: int|
            0 <= j < linear_insert_pos(s, x) ==> !lt_spec(x, #[trigger] s[j]),
        linear_insert_pos(s, x) < s.len() ==> lt_spec(x, s[linear_insert_pos(s, x)]),
    decreases s.len(),
{
    if s.len() == 0 {
    } else if lt_spec(x, s[0]) {
    } else {
        let rest = s.drop_first();
        lemma_linear_pos_prefix(rest, x);
        lemma_linear_insert_pos_bounds(rest, x);
        let p = linear_insert_pos(s, x);
        let pr = linear_insert_pos(rest, x);
        assert(p == 1 + pr);
        assert forall|j: int| 0 <= j < p implies !lt_spec(x, #[trigger] s[j]) by {
            if j > 0 {
                assert(rest[j - 1] == s[j]);
                assert(!lt_spec(x, rest[j - 1]));
            }
        }
        if p < s.len() {
            assert(s[p] == rest[pr]);
        }
    }
}

} // verus!
