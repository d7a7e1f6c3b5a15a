//! The project types that come with the library. Each holds the probe
//! through which its condition looks at the filesystem.

use vstd::prelude::*;
use crate::probe::{has_marker, marker_answer, probe_ready, EntryKind, IoFailure};
use crate::project_type::ProjectType;
use crate::traversal::TraversalDirection;
use crate::tree_path::TreePath;

verus! {

/// A Node.js package: the nearest directory that holds a `package.json` file.
pub struct NodeProject<P> {
    pub probe: P,
}

impl<P: Fn(&TreePath) -> Result<EntryKind, IoFailure>> ProjectType for NodeProject<P> {
    type Failure = IoFailure;

    open spec fn ready(&self) -> bool {
        probe_ready(&self.probe)
    }

    fn direction() -> (direction: TraversalDirection)
        ensures
            direction == TraversalDirection::Backwards,
    {
        TraversalDirection::Backwards
    }

    fn condition(&self, path: &TreePath) -> (answer: Result<bool, IoFailure>)
        ensures
            marker_answer(&self.probe, path@, "package.json"@, EntryKind::File, answer),
    {
        has_marker(&self.probe, path, "package.json", EntryKind::File)
    }
}

/// A Python project: the nearest directory that holds a `pyproject.toml` file.
pub struct PythonProject<P> {
    pub probe: P,
}

impl<P: Fn(&TreePath) -> Result<EntryKind, IoFailure>> ProjectType for PythonProject<P> {
    type Failure = IoFailure;

    open spec fn ready(&self) -> bool {
        probe_ready(&self.probe)
    }

    fn direction() -> (direction: TraversalDirection)
        ensures
            direction == TraversalDirection::Backwards,
    {
        TraversalDirection::Backwards
    }

    fn condition(&self, path: &TreePath) -> (answer: Result<bool, IoFailure>)
        ensures
            marker_answer(&self.probe, path@, "pyproject.toml"@, EntryKind::File, answer),
    {
        has_marker(&self.probe, path, "pyproject.toml", EntryKind::File)
    }
}

/// A Rust package: the nearest directory that holds a `Cargo.toml` file.
pub struct RustProject<P> {
    pub probe: P,
}

impl<P: Fn(&TreePath) -> Result<EntryKind, IoFailure>> ProjectType for RustProject<P> {
    type Failure = IoFailure;

    open spec fn ready(&self) -> bool {
        probe_ready(&self.probe)
    }

    fn direction() -> (direction: TraversalDirection)
        ensures
            direction == TraversalDirection::Backwards,
    {
        TraversalDirection::Backwards
    }

    fn condition(&self, path: &TreePath) -> (answer: Result<bool, IoFailure>)
        ensures
            marker_answer(&self.probe, path@, "Cargo.toml"@, EntryKind::File, answer),
    {
        has_marker(&self.probe, path, "Cargo.toml", EntryKind::File)
    }
}

/// A Nix flake: the nearest directory that holds a `flake.nix` file.
pub struct NixProject<P> {
    pub probe: P,
}

impl<P: Fn(&TreePath) -> Result<EntryKind, IoFailure>> ProjectType for NixProject<P> {
    type Failure = IoFailure;

    open spec fn ready(&self) -> bool {
        probe_ready(&self.probe)
    }

    fn direction() -> (direction: TraversalDirection)
        ensures
            direction == TraversalDirection::Backwards,
    {
        TraversalDirection::Backwards
    }

    fn condition(&self, path: &TreePath) -> (answer: Result<bool, IoFailure>)
        ensures
            marker_answer(&self.probe, path@, "flake.nix"@, EntryKind::File, answer),
    {
        has_marker(&self.probe, path, "flake.nix", EntryKind::File)
    }
}

/// A Git work tree: the nearest directory that holds a `.git` directory.
pub struct GitProject<P> {
    pub probe: P,
}

impl<P: Fn(&TreePath) -> Result<EntryKind, IoFailure>> ProjectType for GitProject<P> {
    type Failure = IoFailure;

    open spec fn ready(&self) -> bool {
        probe_ready(&self.probe)
    }

    fn direction() -> (direction: TraversalDirection)
        ensures
            direction == TraversalDirection::Backwards,
    {
        TraversalDirection::Backwards
    }

    fn condition(&self, path: &TreePath) -> (answer: Result<bool, IoFailure>)
        ensures
            marker_answer(&self.probe, path@, ".git"@, EntryKind::Directory, answer),
    {
        has_marker(&self.probe, path, ".git", EntryKind::Directory)
    }
}

/// A container build context: the outermost directory that holds a `Dockerfile`
/// file.
pub struct DockerProject<P> {
    pub probe: P,
}

impl<P: Fn(&TreePath) -> Result<EntryKind, IoFailure>> ProjectType for DockerProject<P> {
    type Failure = IoFailure;

    open spec fn ready(&self) -> bool {
        probe_ready(&self.probe)
    }

    fn direction() -> (direction: TraversalDirection)
        ensures
            direction == TraversalDirection::Forward,
    {
        TraversalDirection::Forward
    }

    fn condition(&self, path: &TreePath) -> (answer: Result<bool, IoFailure>)
        ensures
            marker_answer(&self.probe, path@, "Dockerfile"@, EntryKind::File, answer),
    {
        has_marker(&self.probe, path, "Dockerfile", EntryKind::File)
    }
}

} // verus!
