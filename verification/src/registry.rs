//! The project types by name: the catalogue of the types that come with the
//! library, their names in text, and the lookup for a type chosen at run time.

use vstd::prelude::*;
use crate::probe::{marker_answer, probe_ready, reports, EntryKind, IoFailure};
use crate::project_type::{located, verdicts, ProjectType, RepoRoot};
use crate::projects::{
    DockerProject, GitProject, NixProject, NodeProject, PythonProject, RustProject,
};
use crate::traversal::{first_match, outcome, TraversalDirection};
use crate::walk_laws::{decided_by, first_wanted, lemma_decided_walk, lemma_first_match_widens};
use crate::tree_path::{PathModel, TreePath};

verus! {

/// The project types that can be chosen by name.
#[derive(Debug, Clone, Copy, PartialEq, Eq, Structural)]
pub enum ProjectTypes {
    Git,
    Docker,
    NodeJS,
    Rust,
    Python,
    Nix,
}

/// The paths of the roots in `found`.
fn root_path<T: ProjectType>(found: Result<Option<RepoRoot<T>>, T::Failure>) -> (paths: Result<
    Option<TreePath>,
    T::Failure,
>)
    ensures
        outcome(paths) == located(found),
{
    match found {
        Ok(Some(root)) => Ok(Some(root.path())),
        Ok(None) => Ok(None),
        Err(failure) => Err(failure),
    }
}

impl ProjectTypes {
    /// The name of the entry whose presence makes a directory a root of this
    /// type.
    pub open spec fn marker_name(self) -> Seq<char> {
        match self {
            ProjectTypes::Git => ".git"@,
            ProjectTypes::Docker => "Dockerfile"@,
            ProjectTypes::NodeJS => "package.json"@,
            ProjectTypes::Rust => "Cargo.toml"@,
            ProjectTypes::Python => "pyproject.toml"@,
            ProjectTypes::Nix => "flake.nix"@,
        }
    }

    /// What the marker must be: a directory for Git, a file for the others.
    pub open spec fn marker_kind(self) -> EntryKind {
        match self {
            ProjectTypes::Git => EntryKind::Directory,
            _ => EntryKind::File,
        }
    }

    /// The direction of the walk: downward from the root for Docker, upward
    /// from the start for the others.
    pub open spec fn direction(self) -> TraversalDirection {
        match self {
            ProjectTypes::Docker => TraversalDirection::Forward,
            _ => TraversalDirection::Backwards,
        }
    }

    /// Whether `dir` holds the marker of this type, the filesystem being
    /// `entries`.
    pub open spec fn is_root(self, entries: spec_fn(PathModel) -> EntryKind) -> spec_fn(
        PathModel,
    ) -> bool {
        |dir: PathModel| entries(dir.join(self.marker_name())) == self.marker_kind()
    }

    /// The answers to "does this directory hold the marker of this type?" that
    /// the reports of `probe` allow.
    pub open spec fn verdicts<P: Fn(&TreePath) -> Result<EntryKind, IoFailure>>(
        self,
        probe: &P,
    ) -> spec_fn(PathModel, Result<bool, IoFailure>) -> bool {
        |dir: PathModel, answer: Result<bool, IoFailure>|
            marker_answer(probe, dir, self.marker_name(), self.marker_kind(), answer)
    }

    /// Looks for the root of a project of this type from `path`, asking
    /// `probe` about the marker in one candidate directory after another.
    /// Returns the first candidate in which the marker was found, nothing
    /// where it was found in none, and the first failure of the probe where
    /// one comes before any find.
    pub fn find<P: Fn(&TreePath) -> Result<EntryKind, IoFailure>>(
        &self,
        path: &TreePath,
        probe: P,
    ) -> (found: Result<Option<TreePath>, IoFailure>)
        requires
            probe_ready(&probe),
        ensures
            first_match(self.verdicts(&probe), self.direction().candidates(path@), outcome(found)),
            found matches Ok(Some(hit)) ==> hit@.is_prefix_of(path@),
    {
        let ghost line = self.direction().candidates(path@);
        match self {
            ProjectTypes::Git => {
                let project = GitProject { probe };
                let root = RepoRoot::find(&project, path);
                proof {
                    lemma_first_match_widens(
                        verdicts(&project),
                        self.verdicts(&project.probe),
                        line,
                        located(root),
                    );
                }
                root_path(root)
            },
            ProjectTypes::Docker => {
                let project = DockerProject { probe };
                let root = RepoRoot::find(&project, path);
                proof {
                    lemma_first_match_widens(
                        verdicts(&project),
                        self.verdicts(&project.probe),
                        line,
                        located(root),
                    );
                }
                root_path(root)
            },
            ProjectTypes::NodeJS => {
                let project = NodeProject { probe };
                let root = RepoRoot::find(&project, path);
                proof {
                    lemma_first_match_widens(
                        verdicts(&project),
                        self.verdicts(&project.probe),
                        line,
                        located(root),
                    );
                }
                root_path(root)
            },
            ProjectTypes::Rust => {
                let project = RustProject { probe };
                let root = RepoRoot::find(&project, path);
                proof {
                    lemma_first_match_widens(
                        verdicts(&project),
                        self.verdicts(&project.probe),
                        line,
                        located(root),
                    );
                }
                root_path(root)
            },
            ProjectTypes::Python => {
                let project = PythonProject { probe };
                let root = RepoRoot::find(&project, path);
                proof {
                    lemma_first_match_widens(
                        verdicts(&project),
                        self.verdicts(&project.probe),
                        line,
                        located(root),
                    );
                }
                root_path(root)
            },
            ProjectTypes::Nix => {
                let project = NixProject { probe };
                let root = RepoRoot::find(&project, path);
                proof {
                    lemma_first_match_widens(
                        verdicts(&project),
                        self.verdicts(&project.probe),
                        line,
                        located(root),
                    );
                }
                root_path(root)
            },
        }
    }
}

/// On a filesystem that does not change and can be read, a lookup is a
/// function of the start and of what the filesystem holds: it returns the
/// first candidate, in the order of the type's direction, that holds the
/// type's marker, and nothing where none does. It does not fail.
pub proof fn lemma_lookup_on_still_filesystem<P: Fn(&TreePath) -> Result<EntryKind, IoFailure>>(
    project_type: ProjectTypes,
    probe: &P,
    entries: spec_fn(PathModel) -> EntryKind,
    start: PathModel,
    result: Result<Option<PathModel>, IoFailure>,
)
    requires
        reports(probe, entries),
        first_match(project_type.verdicts(probe), project_type.direction().candidates(start), result),
    ensures
        result == Ok::<Option<PathModel>, IoFailure>(
            first_wanted(project_type.is_root(entries), project_type.direction().candidates(start), 0),
        ),
{
    let asked = project_type.verdicts(probe);
    let wanted = project_type.is_root(entries);
    assert(decided_by(asked, wanted));
    lemma_decided_walk(asked, wanted, project_type.direction().candidates(start), result);
}

} // verus!
