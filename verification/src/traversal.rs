//! The three walks over a path's ancestry: upward from the start, downward
//! from the root, and no walk at all. Each asks a condition about one
//! candidate after another and stops at the first answer that is not "no".

use vstd::prelude::*;
use crate::tree_path::{PathModel, TreePath};

verus! {

/// Determine direction to walk between root dir and cwd
#[derive(Debug, Clone, Copy, PartialEq, Eq, Structural)]
pub enum TraversalDirection {
    /// Traverse from the root to the cwd
    Forward,
    /// Traverse from the cwd to root
    Backwards,
    /// Stay in cwd; do not traverse
    NoTraversal,
}

impl TraversalDirection {
    /// The candidates of a walk from `start`, in the order in which the walk
    /// asks about them.
    pub open spec fn candidates(self, start: PathModel) -> Seq<PathModel> {
        match self {
            TraversalDirection::Forward => start.prefixes(),
            TraversalDirection::Backwards => start.ancestors(),
            TraversalDirection::NoTraversal => seq![start],
        }
    }
}

/// Whether `condition`, asked about a path that reads `at`, can give `answer`.
/// A condition that looks at the filesystem can give different answers at
/// different times; each of them is an answer in this sense.
pub open spec fn answers<E, F: Fn(&TreePath) -> Result<bool, E>>(
    condition: F,
    at: PathModel,
    answer: Result<bool, E>,
) -> bool {
    exists|q: TreePath| q@ == at && #[trigger] call_ensures(condition, (&q,), answer)
}

/// The answers of `condition`, as a relation between a path and an answer.
pub open spec fn asked_of<E, F: Fn(&TreePath) -> Result<bool, E>>(condition: F) -> spec_fn(
    PathModel,
    Result<bool, E>,
) -> bool {
    |at: PathModel, answer: Result<bool, E>| answers(condition, at, answer)
}

/// Whether every candidate before index `k` was answered with "no".
pub open spec fn rejected_before<E>(
    asked: spec_fn(PathModel, Result<bool, E>) -> bool,
    candidates: Seq<PathModel>,
    k: int,
) -> bool {
    forall|j: int| 0 <= j < k ==> asked(#[trigger] candidates[j], Ok(false))
}

/// What a walk over `candidates` may return: the first candidate answered with
/// "yes", every one before it having been answered with "no"; nothing, where
/// all were answered with "no"; or the first failure, on the same terms.
pub open spec fn first_match<E>(
    asked: spec_fn(PathModel, Result<bool, E>) -> bool,
    candidates: Seq<PathModel>,
    result: Result<Option<PathModel>, E>,
) -> bool {
    match result {
        Ok(Some(hit)) => exists|k: int|
            0 <= k < candidates.len() && #[trigger] candidates[k] == hit && asked(hit, Ok(true))
                && rejected_before(asked, candidates, k),
        Ok(None) => rejected_before(asked, candidates, candidates.len() as int),
        Err(e) => exists|k: int|
            0 <= k < candidates.len() && asked(#[trigger] candidates[k], Err(e))
                && rejected_before(asked, candidates, k),
    }
}

/// The result of a walk, with the path replaced by what it stands for.
pub open spec fn outcome<E>(found: Result<Option<TreePath>, E>) -> Result<Option<PathModel>, E> {
    match found {
        Ok(Some(path)) => Ok(Some(path@)),
        Ok(None) => Ok(None),
        Err(e) => Err(e),
    }
}

/// Traverse a path's ancestry, walking the chain of parents to the root (/)
/// until the condition is met.
pub fn traverse_backwards<E, F: Fn(&TreePath) -> Result<bool, E>>(cwd: &TreePath, condition: F) -> (found:
    Result<Option<TreePath>, E>)
    requires
        forall|q: TreePath| q@.is_prefix_of(cwd@) ==> call_requires(condition, (&q,)),
    ensures
        first_match(asked_of(condition), cwd@.ancestors(), outcome(found)),
        found matches Ok(Some(hit)) ==> hit@.is_prefix_of(cwd@),
{
    let mut here = cwd.clone();
    let ghost mut k: int = 0;
    let ghost line = cwd@.ancestors();
    assert(line[0].names =~= cwd@.names);
    loop
        invariant
            line == cwd@.ancestors(),
            0 <= k < line.len(),
            here@ == line[k],
            rejected_before(asked_of(condition), line, k),
            forall|q: TreePath| q@.is_prefix_of(cwd@) ==> call_requires(condition, (&q,)),
        decreases line.len() - k,
    {
        assert(here@.is_prefix_of(cwd@));
        match condition(&here) {
            Ok(true) => {
                return Ok(Some(here));
            },
            Ok(false) => {},
            Err(e) => {
                return Err(e);
            },
        }
        match here.parent() {
            None => {
                return Ok(None);
            },
            Some(up) => {
                proof {
                    assert(line[k + 1] == up@) by {
                        assert(line[k + 1].names =~= up@.names);
                    }
                    k = k + 1;
                }
                here = up;
            },
        }
    }
}

/// Traverse a path, starting from the root (/) walking down the children to
/// the full path until the condition is met.
pub fn traverse_forward<E, F: Fn(&TreePath) -> Result<bool, E>>(cwd: &TreePath, condition: F) -> (found:
    Result<Option<TreePath>, E>)
    requires
        forall|q: TreePath| q@.is_prefix_of(cwd@) ==> call_requires(condition, (&q,)),
    ensures
        first_match(asked_of(condition), cwd@.prefixes(), outcome(found)),
        found matches Ok(Some(hit)) ==> hit@.is_prefix_of(cwd@),
{
    let ghost line = cwd@.prefixes();
    let mut path = TreePath { rooted: cwd.rooted, names: Vec::new() };
    assert(path@.names =~= cwd@.prefix(0).names);
    if cwd.rooted {
        assert(path@ == line[0]);
        match condition(&path) {
            Ok(true) => {
                return Ok(Some(path));
            },
            Ok(false) => {},
            Err(e) => {
                return Err(e);
            },
        }
    }
    let mut i: usize = 0;
    while i < cwd.names.len()
        invariant
            line == cwd@.prefixes(),
            i <= cwd.names@.len(),
            path@ == cwd@.prefix(i as int),
            rejected_before(asked_of(condition), line, line.len() - cwd.names@.len() + i),
            forall|q: TreePath| q@.is_prefix_of(cwd@) ==> call_requires(condition, (&q,)),
        decreases cwd.names@.len() - i,
    {
        let ghost above = path.names@;
        assert(above.len() == i);
        path.names.push(cwd.names[i].clone());
        i += 1;
        assert(path.names@ =~= above.push(cwd.names@[i - 1]));
        assert(path@.names =~= cwd@.prefix(i as int).names);
        assert(path@ == line[line.len() - cwd.names@.len() + i - 1]);
        match condition(&path) {
            Ok(true) => {
                return Ok(Some(path));
            },
            Ok(false) => {},
            Err(e) => {
                return Err(e);
            },
        }
    }
    Ok(None)
}

/// Do not go up/down the directory tree; only look in cwd
pub fn no_traversal<E, F: Fn(&TreePath) -> Result<bool, E>>(cwd: &TreePath, condition: F) -> (found:
    Result<Option<TreePath>, E>)
    requires
        call_requires(condition, (cwd,)),
    ensures
        first_match(asked_of(condition), seq![cwd@], outcome(found)),
        match found {
            Ok(Some(hit)) => hit@ == cwd@ && call_ensures(condition, (cwd,), Ok(true)),
            Ok(None) => call_ensures(condition, (cwd,), Ok(false)),
            Err(e) => call_ensures(condition, (cwd,), Err(e)),
        },
{
    let ghost line = seq![cwd@];
    match condition(cwd) {
        Ok(true) => {
            assert(line[0] == cwd@);
            Ok(Some(cwd.clone()))
        },
        Ok(false) => Ok(None),
        Err(e) => {
            assert(line[0] == cwd@);
            Err(e)
        },
    }
}

} // verus!
