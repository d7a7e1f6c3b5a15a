//! What a lookup learns from the filesystem: the kind of entry at a path, or
//! that the check could not be made.

use vstd::prelude::*;
use crate::tree_path::{PathModel, TreePath};

verus! {

/// What a probe found at a path. Whatever is neither a regular file nor a
/// directory, and a path at which nothing exists, are `Neither`.
#[derive(Debug, Clone, Copy, PartialEq, Eq, Structural)]
pub enum EntryKind {
    File,
    Directory,
    Neither,
}

/// A filesystem check that could not be completed.
#[derive(Debug, Clone, PartialEq, Eq)]
pub struct IoFailure {
    /// What went wrong, in words.
    pub reason: String,
}

/// Whether `probe` may be asked about every path.
pub open spec fn probe_ready<P: Fn(&TreePath) -> Result<EntryKind, IoFailure>>(probe: &P) -> bool {
    forall|q: TreePath| call_requires(*probe, (&q,))
}

/// Whether `probe`, asked about a path that reads `at`, can report `seen`. The
/// filesystem may change between two checks: each report that the probe can
/// make is one in this sense.
pub open spec fn observed<P: Fn(&TreePath) -> Result<EntryKind, IoFailure>>(
    probe: &P,
    at: PathModel,
    seen: Result<EntryKind, IoFailure>,
) -> bool {
    exists|q: TreePath| q@ == at && #[trigger] call_ensures(*probe, (&q,), seen)
}

/// Whether `probe` reports about every path what `entries` holds there, and
/// never fails: the filesystem does not change while it is looked at.
pub open spec fn reports<P: Fn(&TreePath) -> Result<EntryKind, IoFailure>>(
    probe: &P,
    entries: spec_fn(PathModel) -> EntryKind,
) -> bool {
    forall|at: PathModel, seen: Result<EntryKind, IoFailure>| #[trigger]
        observed(probe, at, seen) ==> seen == Ok::<EntryKind, IoFailure>(entries(at))
}

/// What a report means for a marker of kind `wanted`: the marker is there
/// exactly if an entry of that kind was found, and a failure stays a failure.
pub open spec fn judged(seen: Result<EntryKind, IoFailure>, wanted: EntryKind) -> Result<
    bool,
    IoFailure,
> {
    match seen {
        Ok(found) => Ok(found == wanted),
        Err(failure) => Err(failure),
    }
}

/// Whether `answer` is what some report of `probe` about the entry `name` in
/// `dir` means for a marker of kind `wanted`.
pub open spec fn marker_answer<P: Fn(&TreePath) -> Result<EntryKind, IoFailure>>(
    probe: &P,
    dir: PathModel,
    name: Seq<char>,
    wanted: EntryKind,
    answer: Result<bool, IoFailure>,
) -> bool {
    exists|seen: Result<EntryKind, IoFailure>| #[trigger]
        observed(probe, dir.join(name), seen) && answer == judged(seen, wanted)
}

/// Turns a probe's report into the answer to "is the marker there?".
pub fn judge(seen: Result<EntryKind, IoFailure>, wanted: EntryKind) -> (answer: Result<bool, IoFailure>)
    ensures
        answer == judged(seen, wanted),
{
    match seen {
        Ok(found) => Ok(found == wanted),
        Err(failure) => Err(failure),
    }
}

/// Asks `probe` about the entry `name` in `dir`, and says whether a marker of
/// kind `wanted` is there.
pub fn has_marker<P: Fn(&TreePath) -> Result<EntryKind, IoFailure>>(
    probe: &P,
    dir: &TreePath,
    name: &str,
    wanted: EntryKind,
) -> (answer: Result<bool, IoFailure>)
    requires
        forall|q: TreePath| q@ == dir@.join(name@) ==> call_requires(*probe, (&q,)),
    ensures
        marker_answer(probe, dir@, name@, wanted, answer),
{
    let at = dir.join(name);
    let seen = probe(&at);
    assert(observed(probe, dir@.join(name@), seen));
    judge(seen, wanted)
}

} // verus!
