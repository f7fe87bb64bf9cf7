use crate::list::sorted::SortedList;
use crate::tree::part::PathPart;
use vstd::prelude::*;

verus! {

/// One level of the tree index: a component name and, once anything was
/// added under it, a sorted list of file components and one of directory
/// components.
pub struct Node {
    pub name: PathPart,
    pub files: Option<SortedList<PathPart>>,
    pub dirs: Option<SortedList<PathPart>>,
}

impl Node {
    /// The file components recorded at this level, in list order.
    pub open spec fn files_seq(&self) -> Seq<PathPart> {
        match self.files {
            None => Seq::empty(),
            Some(l) => l@,
        }
    }

    /// The directory components recorded at this level, in list order.
    pub open spec fn dirs_seq(&self) -> Seq<PathPart> {
        match self.dirs {
            None => Seq::empty(),
            Some(l) => l@,
        }
    }

    /// Well-formedness: whichever lists exist are well formed.
    pub open spec fn wf(&self) -> bool {
        &&& match self.files {
            None => true,
            Some(l) => l.wf(),
        }
        &&& match self.dirs {
            None => true,
            Some(l) => l.wf(),
        }
    }

    /// A fresh level named after the root, with nothing recorded yet.
    pub fn new() -> (r: Self)
        ensures
            r.wf(),
            r.files_seq() =~= Seq::<PathPart>::empty(),
            r.dirs_seq() =~= Seq::<PathPart>::empty(),
    {
        Node { name: PathPart::root(), files: None, dirs: None }
    }
}

} // verus!
