//! The capability that a lookup is parameterised by, and the result that it
//! hands back.

use vstd::prelude::*;
use std::marker::PhantomData;
use crate::traversal::{
    first_match, no_traversal, outcome, traverse_backwards, traverse_forward, TraversalDirection,
};
use crate::tree_path::{lemma_prefix_of_itself, PathModel, TreePath};

verus! {

/// Whether `project`, asked whether a path that reads `at` is one of its
/// roots, can give `answer`.
pub open spec fn verdict<T: ProjectType>(
    project: &T,
    at: PathModel,
    answer: Result<bool, T::Failure>,
) -> bool {
    exists|q: TreePath| q@ == at && #[trigger] call_ensures(T::condition, (project, &q), answer)
}

/// The answers of `project`'s condition, as a relation between a path and an
/// answer.
pub open spec fn verdicts<T: ProjectType>(project: &T) -> spec_fn(
    PathModel,
    Result<bool, T::Failure>,
) -> bool {
    |at: PathModel, answer: Result<bool, T::Failure>| verdict(project, at, answer)
}

/// A kind of project: the direction in which its root is looked for, and the
/// condition that makes a directory its root.
pub trait ProjectType: Sized {
    /// What the condition reports when the check itself could not be made.
    type Failure;

    /// What a value must satisfy for its condition to be asked. A type whose
    /// condition asks nothing of its caller keeps this as it is.
    open spec fn ready(&self) -> bool {
        true
    }

    fn direction() -> TraversalDirection;

    /// Whether `path` is a root of a project of this kind.
    fn condition(&self, path: &TreePath) -> (answer: Result<bool, Self::Failure>)
        requires
            self.ready(),
    ;

    /// Walks from `path` in this type's direction and returns the first
    /// candidate that the condition accepts. A failure of the condition ends
    /// the walk and is returned as it is.
    fn traverse(&self, path: &TreePath) -> (found: Result<Option<TreePath>, Self::Failure>)
        requires
            self.ready(),
        ensures
            exists|direction: TraversalDirection| #[trigger]
                call_ensures(Self::direction, (), direction) && first_match(
                    |at: PathModel, answer: Result<bool, Self::Failure>|
                        exists|q: TreePath|
                            q@ == at && #[trigger] call_ensures(Self::condition, (self, &q), answer),
                    direction.candidates(path@),
                    outcome(found),
                ),
            found matches Ok(Some(hit)) ==> hit@.is_prefix_of(path@),
    {
        let condition = |at: &TreePath| -> (answer: Result<bool, Self::Failure>)
            ensures
                call_ensures(Self::condition, (self, at), answer),
            { self.condition(at) };
        let direction = Self::direction();
        proof {
            lemma_prefix_of_itself(path@);
        }
        match direction {
            TraversalDirection::Forward => traverse_forward(path, condition),
            TraversalDirection::Backwards => traverse_backwards(path, condition),
            TraversalDirection::NoTraversal => no_traversal(path, condition),
        }
    }
}

/// The root of a project of kind `T`: a path that a lookup for `T` found.
pub struct RepoRoot<T: ProjectType> {
    pub path: TreePath,
    pub project_type: PhantomData<T>,
}

impl<T: ProjectType> View for RepoRoot<T> {
    type V = PathModel;

    open spec fn view(&self) -> PathModel {
        self.path@
    }
}

/// The result of a lookup, with the root replaced by what its path stands for.
pub open spec fn located<T: ProjectType>(found: Result<Option<RepoRoot<T>>, T::Failure>) -> Result<
    Option<PathModel>,
    T::Failure,
> {
    match found {
        Ok(Some(root)) => Ok(Some(root@)),
        Ok(None) => Ok(None),
        Err(failure) => Err(failure),
    }
}

impl<T: ProjectType> RepoRoot<T> {
    pub fn new(path: &TreePath) -> (root: Self)
        ensures
            root@ == path@,
    {
        Self { path: path.clone(), project_type: PhantomData }
    }

    /// Extract the path of the RepoRoot
    pub fn path(&self) -> (path: TreePath)
        ensures
            path@ == self@,
    {
        self.path.clone()
    }

    /// Looks for the root of a project of kind `T` from `path`: walks in the
    /// direction that `T` names and returns the first candidate that
    /// `project`'s condition accepts, nothing where it accepts none, and the
    /// first failure of the condition where one comes before any acceptance.
    pub fn find(project: &T, path: &TreePath) -> (found: Result<Option<Self>, T::Failure>)
        requires
            project.ready(),
        ensures
            exists|direction: TraversalDirection| #[trigger]
                call_ensures(T::direction, (), direction) && first_match(
                    verdicts(project),
                    direction.candidates(path@),
                    located(found),
                ),
            found matches Ok(Some(root)) ==> root@.is_prefix_of(path@),
    {
        match project.traverse(path) {
            Ok(Some(hit)) => Ok(Some(RepoRoot::new(&hit))),
            Ok(None) => Ok(None),
            Err(failure) => Err(failure),
        }
    }
}

} // verus!
