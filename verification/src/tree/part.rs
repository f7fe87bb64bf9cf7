use crate::order::lex_cmp;
use std::cmp::Ordering;
use vstd::prelude::*;
use vstd::std_specs::cmp::PartialOrdSpec;
use vstd::utf8::encode_utf8;

verus! {

/// Compares two byte strings lexicographically, byte for byte.
fn bytes_cmp(a: &[u8], b: &[u8]) -> (r: Ordering)
    ensures
        r == lex_cmp(a@, b@),
{
    let mut i: usize = 0;
    proof {
        assert(a@.skip(0) =~= a@);
        assert(b@.skip(0) =~= b@);
    }
    loop
        invariant
            i <= a@.len(),
            i <= b@.len(),
            lex_cmp(a@, b@) == lex_cmp(a@.skip(i as int), b@.skip(i as int)),
        decreases a@.len() - i,
    {
        let ghost ar = a@.skip(i as int);
        let ghost br = b@.skip(i as int);
        if i == a.len() && i == b.len() {
            assert(ar.len() == 0 && br.len() == 0);
            return Ordering::Equal;
        }
        if i == a.len() {
            assert(ar.len() == 0 && br.len() > 0);
            return Ordering::Less;
        }
        if i == b.len() {
            assert(ar.len() > 0 && br.len() == 0);
            return Ordering::Greater;
        }
        assert(ar[0] == a@[i as int] && br[0] == b@[i as int]);
        if a[i] < b[i] {
            return Ordering::Less;
        }
        if a[i] > b[i] {
            return Ordering::Greater;
        }
        proof {
            assert(lex_cmp(ar, br) == lex_cmp(ar.drop_first(), br.drop_first()));
            assert(ar.drop_first() =~= a@.skip(i + 1));
            assert(br.drop_first() =~= b@.skip(i + 1));
        }
        i = i + 1;
    }
}

/// One step of a file-system path: a component name held as plain text. The
/// root is written as a lone separator. Components compare lexicographically
/// by the bytes of their text, which is the order the sorted lists below
/// keep.
#[derive(Debug)]
pub struct PathPart {
    name: String,
}

impl View for PathPart {
    type V = Seq<char>;

    closed spec fn view(&self) -> Seq<char> {
        self.name@
    }
}

/// How two path components compare: by the lexicographic byte order of
/// their texts.
pub open spec fn path_part_cmp(a: &PathPart, b: &PathPart) -> Ordering {
    lex_cmp(encode_utf8(a@), encode_utf8(b@))
}

impl PathPart {
    /// Wraps a component name.
    pub fn new(name: String) -> (r: Self)
        ensures
            r@ == name@,
    {
        PathPart { name }
    }

    /// The component that stands for the file-system root.
    pub fn root() -> (r: Self)
        ensures
            r@ == "/"@,
    {
        PathPart { name: "/".to_owned() }
    }

    /// Borrows the component's text.
    pub fn name(&self) -> (r: &str)
        ensures
            r@ == self@,
    {
        self.name.as_str()
    }
}

/// Compares two components, answering exactly as `path_part_cmp` says.
fn path_part_compare(a: &PathPart, b: &PathPart) -> (r: Ordering)
    ensures
        r == path_part_cmp(a, b),
{
    bytes_cmp(a.name().as_bytes(), b.name().as_bytes())
}

impl Clone for PathPart {
    /// Cloning a component keeps its text.
    fn clone(&self) -> (r: Self)
        ensures
            r == self,
    {
        PathPart { name: self.name.clone() }
    }
}

impl PartialEq for PathPart {
    /// Two components are equal exactly when their texts agree.
    fn eq(&self, other: &PathPart) -> (r: bool) {
        matches!(path_part_compare(self, other), Ordering::Equal)
    }
}

impl vstd::std_specs::cmp::PartialEqSpecImpl for PathPart {
    open spec fn obeys_eq_spec() -> bool {
        true
    }

    open spec fn eq_spec(&self, other: &PathPart) -> bool {
        path_part_cmp(self, other) == Ordering::Equal
    }
}

impl PartialOrd for PathPart {
    /// Components always compare, by the lexicographic byte order of their
    /// texts.
    fn partial_cmp(&self, other: &PathPart) -> (r: Option<Ordering>) {
        Some(path_part_compare(self, other))
    }
}

impl vstd::std_specs::cmp::PartialOrdSpecImpl for PathPart {
    open spec fn obeys_partial_cmp_spec() -> bool {
        true
    }

    open spec fn partial_cmp_spec(&self, other: &PathPart) -> Option<Ordering> {
        Some(path_part_cmp(self, other))
    }
}

} // verus!
