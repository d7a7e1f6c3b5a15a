//! A filesystem path as the traversal reads it: whether it starts at the
//! filesystem root, and the names that follow, outermost first.
//!
//! The names are taken as they are. `.` and `..` are names like any other:
//! a lookup walks the path as it is written and resolves nothing.

use vstd::prelude::*;

verus! {

/// What a [`TreePath`] stands for in contracts.
pub struct PathModel {
    /// Whether the path starts at the filesystem root.
    pub rooted: bool,
    /// The names after the root, outermost first.
    pub names: Seq<Seq<char>>,
}

impl PathModel {
    /// The path made of the first `n` names.
    pub open spec fn prefix(self, n: int) -> PathModel {
        PathModel { rooted: self.rooted, names: self.names.subrange(0, n) }
    }

    /// Whether `self` is `other` or lies above it.
    pub open spec fn is_prefix_of(self, other: PathModel) -> bool {
        &&& self.names.len() <= other.names.len()
        &&& self == other.prefix(self.names.len() as int)
    }

    /// The directory that holds this path. The root has none, nor has the
    /// empty relative path; a relative path of one name has the empty path.
    pub open spec fn parent(self) -> Option<PathModel> {
        if self.names.len() == 0 {
            None
        } else {
            Some(self.prefix(self.names.len() - 1))
        }
    }

    /// This path with one more name below it.
    pub open spec fn join(self, name: Seq<char>) -> PathModel {
        PathModel { rooted: self.rooted, names: self.names.push(name) }
    }

    /// The path itself, then its parent, and so on up to the path without a
    /// parent.
    pub open spec fn ancestors(self) -> Seq<PathModel> {
        Seq::new(self.names.len() + 1, |k: int| self.prefix(self.names.len() - k))
    }

    /// The paths met when the path is rebuilt component by component: the
    /// root, where it is rooted, then one more name each time, down to the
    /// path itself.
    pub open spec fn prefixes(self) -> Seq<PathModel> {
        if self.rooted {
            Seq::new(self.names.len() + 1, |k: int| self.prefix(k))
        } else {
            Seq::new(self.names.len(), |k: int| self.prefix(k + 1))
        }
    }
}

/// A path: rooted or relative, followed by its names from the outermost
/// directory down. The root is the rooted path without names; the relative
/// path without names is the empty path.
#[derive(Debug, PartialEq, Eq)]
pub struct TreePath {
    /// Whether the path starts at the filesystem root.
    pub rooted: bool,
    /// The names after the root, outermost first.
    pub names: Vec<String>,
}

impl View for TreePath {
    type V = PathModel;

    open spec fn view(&self) -> PathModel {
        PathModel {
            rooted: self.rooted,
            names: Seq::new(self.names@.len(), |i: int| self.names@[i]@),
        }
    }
}

impl Clone for TreePath {
    fn clone(&self) -> (copy: Self)
        ensures
            copy@ == self@,
    {
        let copy = self.prefix(self.names.len());
        assert(copy@.names =~= self@.names);
        copy
    }
}

impl TreePath {
    /// The path made of the first `n` names.
    pub fn prefix(&self, n: usize) -> (head: TreePath)
        requires
            n <= self@.names.len(),
        ensures
            head@ == self@.prefix(n as int),
    {
        let mut names: Vec<String> = Vec::new();
        let mut i: usize = 0;
        while i < n
            invariant
                i <= n <= self.names@.len(),
                names@.len() == i,
                forall|j: int| 0 <= j < i ==> names@[j]@ == self.names@[j]@,
            decreases n - i,
        {
            names.push(self.names[i].clone());
            i += 1;
        }
        let head = TreePath { rooted: self.rooted, names };
        assert(head@.names =~= self@.prefix(n as int).names);
        head
    }

    /// The directory that holds this path, if it has one.
    pub fn parent(&self) -> (up: Option<TreePath>)
        ensures
            match up {
                Some(p) => self@.parent() == Some(p@),
                None => self@.parent().is_none(),
            },
    {
        let n: usize = self.names.len();
        if n == 0 {
            None
        } else {
            Some(self.prefix(n - 1))
        }
    }

    /// This path with `name` added below it.
    pub fn join(&self, name: &str) -> (below: TreePath)
        ensures
            below@ == self@.join(name@),
    {
        let mut below = self.clone();
        below.names.push(name.to_owned());
        assert(below@.names =~= self@.join(name@).names);
        below
    }
}

/// A path is itself or lies above itself.
pub proof fn lemma_prefix_of_itself(path: PathModel)
    ensures
        path.is_prefix_of(path),
        path.prefix(path.names.len() as int) == path,
{
    assert(path.prefix(path.names.len() as int).names =~= path.names);
}

/// Of two paths that are the start or lie above it, the shorter is the
/// longer or lies above it.
pub proof fn lemma_prefixes_are_nested(start: PathModel, upper: PathModel, lower: PathModel)
    requires
        upper.is_prefix_of(start),
        lower.is_prefix_of(start),
        upper.names.len() <= lower.names.len(),
    ensures
        upper.is_prefix_of(lower),
{
    assert(upper.names =~= lower.names.subrange(0, upper.names.len() as int));
}

/// The ancestors are what the chain of parents gives: it starts with the
/// path itself, each next one is the parent of the one before, and the last
/// has no parent.
pub proof fn lemma_ancestors_follow_parents(start: PathModel, k: int)
    requires
        0 <= k <= start.names.len(),
    ensures
        start.ancestors().len() == start.names.len() + 1,
        start.ancestors()[0] == start,
        start.ancestors()[k].is_prefix_of(start),
        k < start.names.len() ==> start.ancestors()[k].parent() == Some(start.ancestors()[k + 1]),
        k == start.names.len() ==> start.ancestors()[k].parent().is_none(),
{
    lemma_prefix_of_itself(start);
    let here = start.ancestors()[k];
    if k < start.names.len() {
        assert(here.prefix(here.names.len() - 1).names =~= start.ancestors()[k + 1].names);
    }
}

/// The prefixes are what rebuilding the path gives: the first is the root,
/// or the first name of a relative path; each next one has the next name
/// added below; the last is the path itself. The empty relative path is no
/// prefix.
pub proof fn lemma_prefixes_grow_by_names(start: PathModel, k: int)
    requires
        0 <= k < start.prefixes().len(),
    ensures
        start.prefixes().len() == start.names.len() + if start.rooted { 1int } else { 0int },
        start.prefixes()[k].is_prefix_of(start),
        start.rooted || start.prefixes()[k].names.len() > 0,
        start.prefixes()[0].names.len() == if start.rooted { 0int } else { 1int },
        k + 1 < start.prefixes().len() ==> start.prefixes()[k + 1] == start.prefixes()[k].join(
            start.names[start.prefixes()[k].names.len() as int],
        ),
        k + 1 == start.prefixes().len() ==> start.prefixes()[k] == start,
{
    lemma_prefix_of_itself(start);
    let here = start.prefixes()[k];
    if k + 1 < start.prefixes().len() {
        assert(start.prefixes()[k + 1].names =~= here.join(
            start.names[here.names.len() as int],
        ).names);
    }
}

} // verus!
