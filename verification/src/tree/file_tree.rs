use crate::list::api::List;
use crate::list::sorted::SortedList;
use crate::order::sorted_le;
use crate::tree::node::Node;
use crate::tree::part::PathPart;
use vstd::prelude::*;

verus! {

/// An absolute or relative path, already split into its components. The
/// in-process callers hand paths over in this plain form; only an absolute
/// path is ever recorded in the tree.
pub struct TreePath {
    pub absolute: bool,
    pub parts: Vec<PathPart>,
}

/// A flat index over file-system paths: the components of every added path
/// are recorded at the root level, files and directories each in a sorted
/// list of their own.
pub struct FileTree {
    root: Node,
}

impl FileTree {
    /// The file components recorded so far, in list order.
    pub closed spec fn files_seq(&self) -> Seq<PathPart> {
        self.root.files_seq()
    }

    /// The directory components recorded so far, in list order.
    pub closed spec fn dirs_seq(&self) -> Seq<PathPart> {
        self.root.dirs_seq()
    }

    /// Well-formedness: the root level is well formed.
    pub closed spec fn wf(&self) -> bool {
        self.root.wf()
    }

    /// Creates an empty index.
    pub fn new() -> (r: Self)
        ensures
            r.wf(),
            r.files_seq() =~= Seq::<PathPart>::empty(),
            r.dirs_seq() =~= Seq::<PathPart>::empty(),
            sorted_le(r.files_seq()),
            sorted_le(r.dirs_seq()),
    {
        FileTree { root: Node::new() }
    }

    /// Borrows the root level, where everything recorded so far sits.
    pub fn root(&self) -> (r: &Node)
        ensures
            r.files_seq() == self.files_seq(),
            r.dirs_seq() == self.dirs_seq(),
    {
        &self.root
    }

    /// Records a path's components in the matching sorted list: files when
    /// `is_file`, directories otherwise. A relative path is refused and
    /// changes nothing. The other list is never touched, and both lists stay
    /// in component order.
    pub fn add(&mut self, path: &TreePath, is_file: bool)
        requires
            old(self).wf(),
            sorted_le(old(self).files_seq()),
            sorted_le(old(self).dirs_seq()),
            old(self).files_seq().len() + path.parts@.len() < usize::MAX,
            old(self).dirs_seq().len() + path.parts@.len() < usize::MAX,
        ensures
            final(self).wf(),
            sorted_le(final(self).files_seq()),
            sorted_le(final(self).dirs_seq()),
            !path.absolute ==> final(self).files_seq() == old(self).files_seq() && final(self).dirs_seq() == old(self).dirs_seq(),
            path.absolute && is_file ==> final(self).files_seq().to_multiset() == old(self).files_seq().to_multiset().add(path.parts@.to_multiset()) && final(self).dirs_seq() == old(self).dirs_seq(),
            path.absolute && !is_file ==> final(self).dirs_seq().to_multiset() == old(self).dirs_seq().to_multiset().add(path.parts@.to_multiset()) && final(self).files_seq() == old(self).files_seq(),
    {
        if !path.absolute {
            return ;
        }
        if is_file {
            let mut taken: Option<SortedList<PathPart>> = None;
            std::mem::swap(&mut taken, &mut self.root.files);
            let mut list = match taken {
                None => SortedList::new(),
                Some(l) => l,
            };
            push_components(&mut list, path);
            self.root.files = Some(list);
        } else {
            let mut taken: Option<SortedList<PathPart>> = None;
            std::mem::swap(&mut taken, &mut self.root.dirs);
            let mut list = match taken {
                None => SortedList::new(),
                Some(l) => l,
            };
            push_components(&mut list, path);
            self.root.dirs = Some(list);
        }
    }
}

/// Pushes every component of a path into a sorted list, in path order; the
/// list stays sorted because the component comparison is dependable.
fn push_components(list: &mut SortedList<PathPart>, path: &TreePath)
    requires
        old(list).wf(),
        sorted_le(old(list)@),
        old(list)@.len() + path.parts@.len() < usize::MAX,
    ensures
        final(list).wf(),
        sorted_le(final(list)@),
        final(list)@.to_multiset() == old(list)@.to_multiset().add(path.parts@.to_multiset()),
    decreases path.parts@.len(),
{
    broadcast use vstd::seq_lib::group_to_multiset_ensures;
    broadcast use vstd::multiset::group_multiset_axioms;

    proof {
        crate::laws::lemma_path_part_cmp_reliable();
    }
    let ghost base = old(list)@;
    let mut i: usize = 0;
    while i < path.parts.len()
        invariant
            list.wf(),
            sorted_le(list@),
            crate::order::cmp_reliable::<PathPart>(),
            i <= path.parts@.len(),
            base.len() + path.parts@.len() < usize::MAX,
            list@.len() == base.len() + i,
            list@.to_multiset() == base.to_multiset().add(path.parts@.take(i as int).to_multiset()),
        decreases path.parts@.len() - i,
    {
        let ghost before = list@;
        let part = path.parts[i].clone();
        assert(part == path.parts@[i as int]);
        list.push(part);
        proof {
            assert(path.parts@.take(i + 1) =~= path.parts@.take(i as int).push(
                path.parts@[i as int],
            ));
            assert(list@.to_multiset() == before.to_multiset().insert(path.parts@[i as int]));
            vstd::seq_lib::to_multiset_build(path.parts@.take(i as int), path.parts@[i as int]);
            assert(path.parts@.take(i + 1).to_multiset() == path.parts@.take(
                i as int,
            ).to_multiset().insert(path.parts@[i as int]));
            assert(before.to_multiset().insert(path.parts@[i as int]) =~= base.to_multiset().add(
                path.parts@.take(i + 1).to_multiset(),
            ));
        }
        i = i + 1;
    }
    proof {
        assert(path.parts@.take(path.parts@.len() as int) =~= path.parts@);
    }
}

} // verus!
