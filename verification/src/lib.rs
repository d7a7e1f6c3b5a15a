//! Locating the root directory of a project from a starting path.
//!
//! A lookup walks the ancestry of the starting path and asks, about one
//! candidate directory after another, whether it holds the marker of a project
//! type. The library decides which candidates are asked about, in which order,
//! and what each answer means; the caller supplies the probe that looks at the
//! filesystem.

pub mod tree_path;
pub mod traversal;
pub mod walk_laws;
pub mod probe;
pub mod project_type;
pub mod projects;
pub mod registry;
pub mod names;

pub use names::ParseError;
pub use probe::{EntryKind, IoFailure};
pub use project_type::{ProjectType, RepoRoot};
pub use registry::ProjectTypes;
pub use traversal::TraversalDirection;
pub use tree_path::TreePath;
