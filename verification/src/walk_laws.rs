//! What holds of every walk: which candidate wins, that the result lies on
//! the way between the root and the start, and what a walk returns where the
//! condition depends on the path alone.

use vstd::prelude::*;
use crate::traversal::{first_match, rejected_before, TraversalDirection};
use crate::tree_path::{lemma_prefixes_are_nested, PathModel};

verus! {

/// Whether `asked` gives, about every path, the one answer that `wanted`
/// gives, and never fails.
pub open spec fn decided_by<E>(
    asked: spec_fn(PathModel, Result<bool, E>) -> bool,
    wanted: spec_fn(PathModel) -> bool,
) -> bool {
    forall|at: PathModel, answer: Result<bool, E>| #[trigger]
        asked(at, answer) ==> answer == Ok::<bool, E>(wanted(at))
}

/// The first of `candidates`, from index `from` on, that `wanted` accepts.
pub open spec fn first_wanted(
    wanted: spec_fn(PathModel) -> bool,
    candidates: Seq<PathModel>,
    from: int,
) -> Option<PathModel>
    decreases candidates.len() - from,
{
    if from < 0 || from >= candidates.len() {
        None
    } else if wanted(candidates[from]) {
        Some(candidates[from])
    } else {
        first_wanted(wanted, candidates, from + 1)
    }
}

/// A walk whose every answer is also an answer of `wider` is a walk of
/// `wider`.
pub proof fn lemma_first_match_widens<E>(
    asked: spec_fn(PathModel, Result<bool, E>) -> bool,
    wider: spec_fn(PathModel, Result<bool, E>) -> bool,
    candidates: Seq<PathModel>,
    result: Result<Option<PathModel>, E>,
)
    requires
        first_match(asked, candidates, result),
        forall|at: PathModel, answer: Result<bool, E>| #[trigger]
            asked(at, answer) ==> wider(at, answer),
    ensures
        first_match(wider, candidates, result),
{
    match result {
        Ok(Some(hit)) => {
            let k = choose|k: int|
                0 <= k < candidates.len() && #[trigger] candidates[k] == hit && asked(hit, Ok(true))
                    && rejected_before(asked, candidates, k);
            assert(rejected_before(wider, candidates, k));
        },
        Ok(None) => {},
        Err(e) => {
            let k = choose|k: int|
                0 <= k < candidates.len() && asked(#[trigger] candidates[k], Err(e))
                    && rejected_before(asked, candidates, k);
            assert(rejected_before(wider, candidates, k));
        },
    }
}

/// Where the condition can only say "yes" about the first candidate, the walk
/// returns that candidate, whatever holds of the others.
pub proof fn lemma_first_candidate_wins<E>(
    asked: spec_fn(PathModel, Result<bool, E>) -> bool,
    candidates: Seq<PathModel>,
    result: Result<Option<PathModel>, E>,
)
    requires
        candidates.len() > 0,
        first_match(asked, candidates, result),
        forall|answer: Result<bool, E>| #[trigger]
            asked(candidates[0], answer) ==> answer == Ok::<bool, E>(true),
    ensures
        result == Ok::<Option<PathModel>, E>(Some(candidates[0])),
{
    match result {
        Ok(Some(hit)) => {
            let k = choose|k: int|
                0 <= k < candidates.len() && #[trigger] candidates[k] == hit && asked(hit, Ok(true))
                    && rejected_before(asked, candidates, k);
            if k > 0 {
                assert(asked(candidates[0], Ok(false)));
            }
        },
        Ok(None) => {
            assert(asked(candidates[0], Ok(false)));
        },
        Err(e) => {
            let k = choose|k: int|
                0 <= k < candidates.len() && asked(#[trigger] candidates[k], Err(e))
                    && rejected_before(asked, candidates, k);
            if k > 0 {
                assert(asked(candidates[0], Ok(false)));
            }
        },
    }
}

/// A start about which the condition can only say "yes" is what the upward
/// walk returns: the start itself comes before all of its ancestors.
pub proof fn lemma_ascend_prefers_start<E>(
    asked: spec_fn(PathModel, Result<bool, E>) -> bool,
    start: PathModel,
    result: Result<Option<PathModel>, E>,
)
    requires
        first_match(asked, start.ancestors(), result),
        forall|answer: Result<bool, E>| #[trigger]
            asked(start, answer) ==> answer == Ok::<bool, E>(true),
    ensures
        result == Ok::<Option<PathModel>, E>(Some(start)),
{
    assert(start.ancestors()[0].names =~= start.names);
    lemma_first_candidate_wins(asked, start.ancestors(), result);
}

/// What the upward walk returns is the start or lies above it, and the
/// condition said "no" about the start and about every ancestor nearer to the
/// start than the one returned.
pub proof fn lemma_ascend_finds_nearest<E>(
    asked: spec_fn(PathModel, Result<bool, E>) -> bool,
    start: PathModel,
    hit: PathModel,
    nearer: PathModel,
)
    requires
        first_match(asked, start.ancestors(), Ok(Some(hit))),
        nearer.is_prefix_of(start),
        hit.names.len() < nearer.names.len(),
    ensures
        hit.is_prefix_of(start),
        hit.is_prefix_of(nearer),
        asked(nearer, Ok(false)),
{
    let line = start.ancestors();
    let k = choose|k: int|
        0 <= k < line.len() && #[trigger] line[k] == hit && asked(hit, Ok(true)) && rejected_before(
            asked,
            line,
            k,
        );
    let j = start.names.len() - nearer.names.len();
    assert(line[j] == nearer);
    assert(hit.names =~= nearer.names.subrange(0, hit.names.len() as int));
}

/// What the upward walk returns is the start or lies above it.
pub proof fn lemma_ascend_finds_ancestor<E>(
    asked: spec_fn(PathModel, Result<bool, E>) -> bool,
    start: PathModel,
    hit: PathModel,
)
    requires
        first_match(asked, start.ancestors(), Ok(Some(hit))),
    ensures
        hit.is_prefix_of(start),
{
}

/// What the downward walk returns is the start or lies above it, and the
/// condition said "no" about every candidate farther from the start than the
/// one returned: the outermost match wins.
pub proof fn lemma_descend_finds_outermost<E>(
    asked: spec_fn(PathModel, Result<bool, E>) -> bool,
    start: PathModel,
    hit: PathModel,
    outer: PathModel,
)
    requires
        first_match(asked, start.prefixes(), Ok(Some(hit))),
        outer.is_prefix_of(start),
        outer.names.len() < hit.names.len(),
        start.rooted || outer.names.len() > 0,
    ensures
        hit.is_prefix_of(start),
        outer.is_prefix_of(hit),
        asked(outer, Ok(false)),
{
    let line = start.prefixes();
    let k = choose|k: int|
        0 <= k < line.len() && #[trigger] line[k] == hit && asked(hit, Ok(true)) && rejected_before(
            asked,
            line,
            k,
        );
    let j = if start.rooted {
        outer.names.len() as int
    } else {
        outer.names.len() - 1
    };
    assert(line[j] == outer);
    assert(outer.names =~= hit.names.subrange(0, outer.names.len() as int));
}

/// What the downward walk returns is the start or lies above it.
pub proof fn lemma_descend_finds_prefix<E>(
    asked: spec_fn(PathModel, Result<bool, E>) -> bool,
    start: PathModel,
    hit: PathModel,
)
    requires
        first_match(asked, start.prefixes(), Ok(Some(hit))),
    ensures
        hit.is_prefix_of(start),
{
}

/// What `first_wanted` picks: the first candidate from `from` on that
/// `wanted` accepts, and nothing where it accepts none of them.
pub proof fn lemma_first_wanted_is_first(
    wanted: spec_fn(PathModel) -> bool,
    candidates: Seq<PathModel>,
    from: int,
)
    requires
        0 <= from <= candidates.len(),
    ensures
        match first_wanted(wanted, candidates, from) {
            Some(hit) => exists|k: int|
                from <= k < candidates.len() && #[trigger] candidates[k] == hit && wanted(hit) && (
                forall|j: int| from <= j < k ==> !wanted(#[trigger] candidates[j])),
            None => forall|j: int| from <= j < candidates.len() ==> !wanted(#[trigger] candidates[j]),
        },
    decreases candidates.len() - from,
{
    if from < candidates.len() && !wanted(candidates[from]) {
        lemma_first_wanted_is_first(wanted, candidates, from + 1);
        match first_wanted(wanted, candidates, from + 1) {
            Some(hit) => {
                let k = choose|k: int|
                    from + 1 <= k < candidates.len() && #[trigger] candidates[k] == hit && wanted(hit) && (
                    forall|j: int| from + 1 <= j < k ==> !wanted(#[trigger] candidates[j]));
                assert(from <= k < candidates.len() && candidates[k] == hit && wanted(hit) && (
                forall|j: int| from <= j < k ==> !wanted(#[trigger] candidates[j])));
            },
            None => {},
        }
    } else if from < candidates.len() {
        assert(candidates[from] == candidates[from]);
    }
}

/// The candidate at index `k` is what `first_wanted` picks from `from` on,
/// where `wanted` accepts it and none between.
pub proof fn lemma_first_wanted_found(
    wanted: spec_fn(PathModel) -> bool,
    candidates: Seq<PathModel>,
    from: int,
    k: int,
)
    requires
        0 <= from <= k < candidates.len(),
        wanted(candidates[k]),
        forall|j: int| from <= j < k ==> !wanted(#[trigger] candidates[j]),
    ensures
        first_wanted(wanted, candidates, from) == Some(candidates[k]),
    decreases k - from,
{
    if from < k {
        assert(!wanted(candidates[from]));
        lemma_first_wanted_found(wanted, candidates, from + 1, k);
    }
}

/// `first_wanted` picks nothing from `from` on where `wanted` accepts none of
/// the candidates there.
pub proof fn lemma_first_wanted_none(
    wanted: spec_fn(PathModel) -> bool,
    candidates: Seq<PathModel>,
    from: int,
)
    requires
        0 <= from <= candidates.len(),
        forall|j: int| from <= j < candidates.len() ==> !wanted(#[trigger] candidates[j]),
    ensures
        first_wanted(wanted, candidates, from).is_none(),
    decreases candidates.len() - from,
{
    if from < candidates.len() {
        assert(!wanted(candidates[from]));
        lemma_first_wanted_none(wanted, candidates, from + 1);
    }
}

/// Where the condition gives about every path the one answer that `wanted`
/// gives, a walk has one possible result: the first candidate that `wanted`
/// accepts, or nothing where it accepts none. Such a walk never fails.
pub proof fn lemma_decided_walk<E>(
    asked: spec_fn(PathModel, Result<bool, E>) -> bool,
    wanted: spec_fn(PathModel) -> bool,
    candidates: Seq<PathModel>,
    result: Result<Option<PathModel>, E>,
)
    requires
        decided_by(asked, wanted),
        first_match(asked, candidates, result),
    ensures
        result == Ok::<Option<PathModel>, E>(first_wanted(wanted, candidates, 0)),
{
    match result {
        Ok(Some(hit)) => {
            let k = choose|k: int|
                0 <= k < candidates.len() && #[trigger] candidates[k] == hit && asked(hit, Ok(true))
                    && rejected_before(asked, candidates, k);
            assert forall|j: int| 0 <= j < k implies !wanted(#[trigger] candidates[j]) by {
                assert(asked(candidates[j], Ok(false)));
            }
            lemma_first_wanted_found(wanted, candidates, 0, k);
        },
        Ok(None) => {
            assert forall|j: int| 0 <= j < candidates.len() implies !wanted(
                #[trigger] candidates[j],
            ) by {
                assert(asked(candidates[j], Ok(false)));
            }
            lemma_first_wanted_none(wanted, candidates, 0);
        },
        Err(e) => {
            let k = choose|k: int|
                0 <= k < candidates.len() && asked(#[trigger] candidates[k], Err(e))
                    && rejected_before(asked, candidates, k);
            assert(false);
        },
    }
}

/// Without a walk, the result depends on the start alone: the start where
/// the condition holds of it, nothing where it does not, whatever holds of the
/// directories above or below.
pub proof fn lemma_no_traversal_looks_at_start_only<E>(
    asked: spec_fn(PathModel, Result<bool, E>) -> bool,
    wanted: spec_fn(PathModel) -> bool,
    start: PathModel,
    result: Result<Option<PathModel>, E>,
)
    requires
        decided_by(asked, wanted),
        first_match(asked, TraversalDirection::NoTraversal.candidates(start), result),
    ensures
        wanted(start) ==> result == Ok::<Option<PathModel>, E>(Some(start)),
        !wanted(start) ==> result == Ok::<Option<PathModel>, E>(None),
{
    let line = TraversalDirection::NoTraversal.candidates(start);
    lemma_decided_walk(asked, wanted, line, result);
    assert(line[0] == start);
    reveal_with_fuel(first_wanted, 2);
}

/// The two walks break ties in opposite ways. Of the candidates that
/// `wanted` accepts, the upward walk picks the one nearest to the start: every
/// accepted candidate is that one or lies above it. The downward walk picks
/// the outermost: every accepted candidate is that one or lies below it. So
/// what the downward walk picks is what the upward walk picks or lies above
/// it. (The empty relative path is a candidate of the upward walk only.)
pub proof fn lemma_tie_breaks_are_inverted(
    wanted: spec_fn(PathModel) -> bool,
    start: PathModel,
    accepted: PathModel,
)
    requires
        accepted.is_prefix_of(start),
        wanted(accepted),
    ensures
        first_wanted(wanted, start.ancestors(), 0) matches Some(nearest) && nearest.is_prefix_of(start)
            && accepted.is_prefix_of(nearest),
        start.rooted || accepted.names.len() > 0 ==> (first_wanted(
            wanted,
            start.prefixes(),
            0,
        ) matches Some(outermost) && outermost.is_prefix_of(accepted) && outermost.is_prefix_of(
            first_wanted(wanted, start.ancestors(), 0).unwrap(),
        )),
{
    let up = start.ancestors();
    let down = start.prefixes();
    let n = start.names.len() as int;
    let a = accepted.names.len() as int;
    lemma_first_wanted_is_first(wanted, up, 0);
    assert(up[n - a] == accepted);
    let nearest = first_wanted(wanted, up, 0).unwrap();
    let k = choose|k: int|
        0 <= k < up.len() && #[trigger] up[k] == nearest && wanted(nearest) && (forall|j: int|
            0 <= j < k ==> !wanted(#[trigger] up[j]));
    assert(k <= n - a);
    lemma_prefixes_are_nested(start, accepted, nearest);
    if start.rooted || a > 0 {
        lemma_first_wanted_is_first(wanted, down, 0);
        let at = if start.rooted {
            a
        } else {
            a - 1
        };
        assert(down[at] == accepted);
        let outermost = first_wanted(wanted, down, 0).unwrap();
        let i = choose|i: int|
            0 <= i < down.len() && #[trigger] down[i] == outermost && wanted(outermost) && (forall|
                j: int,
            |
                0 <= j < i ==> !wanted(#[trigger] down[j]));
        assert(i <= at);
        lemma_prefixes_are_nested(start, outermost, accepted);
        lemma_prefixes_are_nested(start, outermost, nearest);
    }
}

} // verus!
