use repo_root::probe::{has_marker, judge};
use repo_root::projects::{
    DockerProject, GitProject, NixProject, NodeProject, PythonProject, RustProject,
};
use repo_root::registry::ProjectTypes;
use repo_root::{EntryKind, IoFailure, ProjectType, RepoRoot, TraversalDirection, TreePath};
use std::cell::RefCell;

fn path(text: &str) -> TreePath {
    TreePath {
        rooted: text.starts_with('/'),
        names: text.split('/').filter(|name| !name.is_empty()).map(|name| name.to_string()).collect(),
    }
}

fn text(path: &TreePath) -> String {
    let joined = path.names.join("/");
    if path.rooted {
        format!("/{}", joined)
    } else {
        joined
    }
}

fn denied() -> IoFailure {
    IoFailure { reason: "permission denied".to_string() }
}

/// A directory tree held in memory: its directories, its files, and the
/// paths at which a check fails.
struct Tree {
    dirs: Vec<&'static str>,
    files: Vec<&'static str>,
    unreadable: Vec<&'static str>,
}

impl Tree {
    fn probe(&self) -> impl Fn(&TreePath) -> Result<EntryKind, IoFailure> + '_ {
        move |at: &TreePath| {
            let wanted = text(at);
            if self.unreadable.contains(&wanted.as_str()) {
                Err(denied())
            } else if self.files.contains(&wanted.as_str()) {
                Ok(EntryKind::File)
            } else if self.dirs.contains(&wanted.as_str()) {
                Ok(EntryKind::Directory)
            } else {
                Ok(EntryKind::Neither)
            }
        }
    }
}

fn project_tree() -> Tree {
    Tree {
        dirs: vec!["/", "/tmp", "/tmp/proj", "/tmp/proj/.git", "/tmp/proj/src", "/tmp/proj/src/app"],
        files: vec![],
        unreadable: vec![],
    }
}

#[test]
fn git_lookup_finds_the_enclosing_work_tree() {
    let tree = project_tree();
    let found = ProjectTypes::Git.find(&path("/tmp/proj/src/app"), tree.probe());
    assert_eq!(found, Ok(Some(path("/tmp/proj"))));
}

#[test]
fn git_lookup_from_the_root_itself_finds_it() {
    let tree = project_tree();
    let found = ProjectTypes::Git.find(&path("/tmp/proj"), tree.probe());
    assert_eq!(found, Ok(Some(path("/tmp/proj"))));
}

#[test]
fn git_lookup_without_a_marker_finds_nothing() {
    let tree = Tree {
        dirs: vec!["/", "/tmp", "/tmp/proj", "/tmp/proj/src", "/tmp/proj/src/app"],
        files: vec![],
        unreadable: vec![],
    };
    let found = ProjectTypes::Git.find(&path("/tmp/proj/src/app"), tree.probe());
    assert_eq!(found, Ok(None));
}

#[test]
fn git_lookup_returns_the_nearest_work_tree() {
    let tree = Tree {
        dirs: vec!["/outer/.git", "/outer/vendor/inner/.git"],
        files: vec![],
        unreadable: vec![],
    };
    let found = ProjectTypes::Git.find(&path("/outer/vendor/inner/src"), tree.probe());
    assert_eq!(found, Ok(Some(path("/outer/vendor/inner"))));
}

#[test]
fn git_marker_must_be_a_directory() {
    let tree = Tree { dirs: vec!["/a/.git"], files: vec!["/a/b/.git"], unreadable: vec![] };
    let found = ProjectTypes::Git.find(&path("/a/b/c"), tree.probe());
    assert_eq!(found, Ok(Some(path("/a"))));
}

#[test]
fn docker_lookup_returns_the_outermost_dockerfile() {
    let tree = Tree {
        dirs: vec!["/", "/repo", "/repo/sub", "/repo/sub/x"],
        files: vec!["/repo/Dockerfile", "/repo/sub/Dockerfile"],
        unreadable: vec![],
    };
    let found = ProjectTypes::Docker.find(&path("/repo/sub/x"), tree.probe());
    assert_eq!(found, Ok(Some(path("/repo"))));
}

#[test]
fn docker_marker_must_be_a_file() {
    let tree = Tree {
        dirs: vec!["/repo/Dockerfile"],
        files: vec!["/repo/sub/Dockerfile"],
        unreadable: vec![],
    };
    let found = ProjectTypes::Docker.find(&path("/repo/sub/x"), tree.probe());
    assert_eq!(found, Ok(Some(path("/repo/sub"))));
}

#[test]
fn docker_marker_name_is_case_sensitive() {
    let tree = Tree {
        dirs: vec![],
        files: vec!["/repo/dockerfile", "/repo/DOCKERFILE", "/repo/Containerfile"],
        unreadable: vec![],
    };
    let found = ProjectTypes::Docker.find(&path("/repo/sub"), tree.probe());
    assert_eq!(found, Ok(None));
}

#[test]
fn each_type_looks_for_its_own_marker() {
    let tree = Tree {
        dirs: vec!["/w/git/.git"],
        files: vec![
            "/w/docker/Dockerfile",
            "/w/node/package.json",
            "/w/rust/Cargo.toml",
            "/w/python/pyproject.toml",
            "/w/nix/flake.nix",
        ],
        unreadable: vec![],
    };
    let cases = [
        (ProjectTypes::Git, "git"),
        (ProjectTypes::Docker, "docker"),
        (ProjectTypes::NodeJS, "node"),
        (ProjectTypes::Rust, "rust"),
        (ProjectTypes::Python, "python"),
        (ProjectTypes::Nix, "nix"),
    ];
    for (project_type, own) in cases {
        for (_, other) in cases {
            let start = path(&format!("/w/{}/src/deep", other));
            let found = project_type.find(&start, tree.probe());
            if own == other {
                assert_eq!(found, Ok(Some(path(&format!("/w/{}", own)))));
            } else {
                assert_eq!(found, Ok(None));
            }
        }
    }
}

#[test]
fn file_markers_must_be_files() {
    let tree = Tree {
        dirs: vec![
            "/w/package.json",
            "/w/Cargo.toml",
            "/w/pyproject.toml",
            "/w/flake.nix",
        ],
        files: vec![],
        unreadable: vec![],
    };
    for project_type in [ProjectTypes::NodeJS, ProjectTypes::Rust, ProjectTypes::Python, ProjectTypes::Nix] {
        assert_eq!(project_type.find(&path("/w/src"), tree.probe()), Ok(None));
    }
}

#[test]
fn backward_types_return_the_nearest_marker() {
    let tree = Tree {
        dirs: vec![],
        files: vec!["/ws/Cargo.toml", "/ws/crates/one/Cargo.toml"],
        unreadable: vec![],
    };
    let found = ProjectTypes::Rust.find(&path("/ws/crates/one/src"), tree.probe());
    assert_eq!(found, Ok(Some(path("/ws/crates/one"))));
}

#[test]
fn lookup_asks_about_the_marker_in_each_candidate() {
    let asked: RefCell<Vec<String>> = RefCell::new(Vec::new());
    let probe = |at: &TreePath| -> Result<EntryKind, IoFailure> {
        asked.borrow_mut().push(text(at));
        Ok(EntryKind::Neither)
    };
    assert_eq!(ProjectTypes::Git.find(&path("/a/b"), &probe), Ok(None));
    assert_eq!(asked.borrow().clone(), vec!["/a/b/.git", "/a/.git", "/.git"]);
    asked.borrow_mut().clear();
    assert_eq!(ProjectTypes::Docker.find(&path("/a/b"), &probe), Ok(None));
    assert_eq!(asked.borrow().clone(), vec!["/Dockerfile", "/a/Dockerfile", "/a/b/Dockerfile"]);
}

#[test]
fn lookup_on_a_relative_path_stays_relative() {
    let tree = Tree { dirs: vec!["proj/.git"], files: vec![], unreadable: vec![] };
    let found = ProjectTypes::Git.find(&path("proj/src/app"), tree.probe());
    assert_eq!(found, Ok(Some(path("proj"))));
}

#[test]
fn lookup_fails_when_the_probe_fails() {
    let tree = Tree {
        dirs: vec!["/tmp/.git"],
        files: vec![],
        unreadable: vec!["/tmp/locked/.git"],
    };
    let found = ProjectTypes::Git.find(&path("/tmp/locked/src"), tree.probe());
    assert_eq!(found, Err(denied()));
}

#[test]
fn lookup_does_not_reach_a_failure_behind_the_root() {
    let tree = Tree {
        dirs: vec!["/tmp/proj/.git"],
        files: vec![],
        unreadable: vec!["/tmp/.git"],
    };
    let found = ProjectTypes::Git.find(&path("/tmp/proj/src"), tree.probe());
    assert_eq!(found, Ok(Some(path("/tmp/proj"))));
}

#[test]
fn docker_lookup_fails_on_a_failure_above_the_root() {
    let tree = Tree {
        dirs: vec![],
        files: vec!["/repo/sub/Dockerfile"],
        unreadable: vec!["/repo/Dockerfile"],
    };
    let found = ProjectTypes::Docker.find(&path("/repo/sub/x"), tree.probe());
    assert_eq!(found, Err(denied()));
}

fn direction_of<T: ProjectType>(_project: &T) -> TraversalDirection {
    T::direction()
}

#[test]
fn directions_of_the_types() {
    let probe = |_at: &TreePath| -> Result<EntryKind, IoFailure> { Ok(EntryKind::Neither) };
    assert_eq!(direction_of(&GitProject { probe }), TraversalDirection::Backwards);
    assert_eq!(direction_of(&NodeProject { probe }), TraversalDirection::Backwards);
    assert_eq!(direction_of(&RustProject { probe }), TraversalDirection::Backwards);
    assert_eq!(direction_of(&PythonProject { probe }), TraversalDirection::Backwards);
    assert_eq!(direction_of(&NixProject { probe }), TraversalDirection::Backwards);
    assert_eq!(direction_of(&DockerProject { probe }), TraversalDirection::Forward);
}

#[test]
fn conditions_of_the_types() {
    let tree = Tree {
        dirs: vec!["/p/.git"],
        files: vec![
            "/p/Dockerfile",
            "/p/package.json",
            "/p/Cargo.toml",
            "/p/pyproject.toml",
            "/p/flake.nix",
        ],
        unreadable: vec!["/locked/.git"],
    };
    assert_eq!(GitProject { probe: tree.probe() }.condition(&path("/p")), Ok(true));
    assert_eq!(GitProject { probe: tree.probe() }.condition(&path("/q")), Ok(false));
    assert_eq!(GitProject { probe: tree.probe() }.condition(&path("/locked")), Err(denied()));
    assert_eq!(DockerProject { probe: tree.probe() }.condition(&path("/p")), Ok(true));
    assert_eq!(DockerProject { probe: tree.probe() }.condition(&path("/")), Ok(false));
    assert_eq!(NodeProject { probe: tree.probe() }.condition(&path("/p")), Ok(true));
    assert_eq!(NodeProject { probe: tree.probe() }.condition(&path("/p/src")), Ok(false));
    assert_eq!(RustProject { probe: tree.probe() }.condition(&path("/p")), Ok(true));
    assert_eq!(RustProject { probe: tree.probe() }.condition(&path("/q")), Ok(false));
    assert_eq!(PythonProject { probe: tree.probe() }.condition(&path("/p")), Ok(true));
    assert_eq!(PythonProject { probe: tree.probe() }.condition(&path("/q")), Ok(false));
    assert_eq!(NixProject { probe: tree.probe() }.condition(&path("/p")), Ok(true));
    assert_eq!(NixProject { probe: tree.probe() }.condition(&path("/q")), Ok(false));
}

#[test]
fn traverse_walks_in_the_direction_of_the_type() {
    let tree = Tree {
        dirs: vec!["/a/.git", "/a/b/.git"],
        files: vec!["/a/Dockerfile", "/a/b/Dockerfile"],
        unreadable: vec![],
    };
    let start = path("/a/b/c");
    assert_eq!(GitProject { probe: tree.probe() }.traverse(&start), Ok(Some(path("/a/b"))));
    assert_eq!(DockerProject { probe: tree.probe() }.traverse(&start), Ok(Some(path("/a"))));
}

#[test]
fn repo_root_find_wraps_the_path_found() {
    let tree = project_tree();
    let project = GitProject { probe: tree.probe() };
    let found = RepoRoot::find(&project, &path("/tmp/proj/src/app"));
    match found {
        Ok(Some(root)) => {
            assert_eq!(root.path(), path("/tmp/proj"));
            assert_eq!(root.path, path("/tmp/proj"));
        }
        _ => panic!("the work tree was not found"),
    };
}

#[test]
fn repo_root_find_reports_absence_and_failure() {
    let tree = Tree { dirs: vec![], files: vec![], unreadable: vec!["/a/package.json"] };
    let project = NodeProject { probe: tree.probe() };
    let absent = RepoRoot::find(&project, &path("/b/c"));
    assert!(matches!(absent, Ok(None)));
    let failed = RepoRoot::find(&project, &path("/a/b"));
    match failed {
        Err(failure) => assert_eq!(failure, denied()),
        _ => panic!("the failure of the probe was lost"),
    };
}

#[test]
fn repo_root_new_keeps_the_path() {
    let root = RepoRoot::<HereProject>::new(&path("/tmp/proj"));
    assert_eq!(root.path(), path("/tmp/proj"));
    assert_eq!(root.path, path("/tmp/proj"));
    let relative = RepoRoot::<HereProject>::new(&path("proj"));
    assert_eq!(relative.path(), path("proj"));
}

/// A project type defined outside the library: the nearest directory that
/// holds a `.foo` file.
struct FooProject<'a> {
    tree: &'a Tree,
}

impl ProjectType for FooProject<'_> {
    type Failure = IoFailure;

    fn direction() -> TraversalDirection {
        TraversalDirection::Backwards
    }

    fn condition(&self, path: &TreePath) -> Result<bool, IoFailure> {
        has_marker(&self.tree.probe(), path, ".foo", EntryKind::File)
    }
}

#[test]
fn custom_type_without_its_marker_finds_nothing() {
    let tree = Tree {
        dirs: vec!["/", "/home", "/home/me", "/home/me/work", "/home/me/.git"],
        files: vec!["/home/me/Cargo.toml"],
        unreadable: vec![],
    };
    let project = FooProject { tree: &tree };
    let found = RepoRoot::find(&project, &path("/home/me/work"));
    assert!(matches!(found, Ok(None)));
}

#[test]
fn custom_type_finds_its_marker() {
    let tree = Tree {
        dirs: vec!["/", "/home", "/home/me", "/home/me/work"],
        files: vec!["/home/.foo", "/home/me/.foo"],
        unreadable: vec![],
    };
    let project = FooProject { tree: &tree };
    let found = RepoRoot::find(&project, &path("/home/me/work"));
    match found {
        Ok(Some(root)) => assert_eq!(root.path(), path("/home/me")),
        _ => panic!("the marker was not found"),
    };
    assert_eq!(project.traverse(&path("/home")), Ok(Some(path("/home"))));
}

/// A project type that looks at the start only.
struct HereProject {}

impl ProjectType for HereProject {
    type Failure = String;

    fn direction() -> TraversalDirection {
        TraversalDirection::NoTraversal
    }

    fn condition(&self, path: &TreePath) -> Result<bool, String> {
        Ok(path.names.last().map(|name| name == "here").unwrap_or(false))
    }
}

#[test]
fn custom_type_without_traversal_looks_at_the_start_only() {
    let project = HereProject {};
    assert_eq!(project.traverse(&path("/a/here")), Ok(Some(path("/a/here"))));
    assert_eq!(project.traverse(&path("/a/here/b")), Ok(None));
    assert_eq!(project.traverse(&path("/a")), Ok(None));
}

#[test]
fn has_marker_asks_about_the_entry_below() {
    let asked: RefCell<Vec<String>> = RefCell::new(Vec::new());
    let probe = |at: &TreePath| -> Result<EntryKind, IoFailure> {
        asked.borrow_mut().push(text(at));
        Ok(EntryKind::File)
    };
    assert_eq!(has_marker(&probe, &path("/a/b"), "Cargo.toml", EntryKind::File), Ok(true));
    assert_eq!(has_marker(&probe, &path("/a/b"), ".git", EntryKind::Directory), Ok(false));
    assert_eq!(asked.into_inner(), vec!["/a/b/Cargo.toml", "/a/b/.git"]);
}

#[test]
fn judge_compares_the_kinds() {
    assert_eq!(judge(Ok(EntryKind::File), EntryKind::File), Ok(true));
    assert_eq!(judge(Ok(EntryKind::Directory), EntryKind::Directory), Ok(true));
    assert_eq!(judge(Ok(EntryKind::Directory), EntryKind::File), Ok(false));
    assert_eq!(judge(Ok(EntryKind::File), EntryKind::Directory), Ok(false));
    assert_eq!(judge(Ok(EntryKind::Neither), EntryKind::File), Ok(false));
    assert_eq!(judge(Ok(EntryKind::Neither), EntryKind::Directory), Ok(false));
}

#[test]
fn judge_keeps_a_failure() {
    assert_eq!(judge(Err(denied()), EntryKind::File), Err(denied()));
    assert_eq!(judge(Err(denied()), EntryKind::Directory), Err(denied()));
}
