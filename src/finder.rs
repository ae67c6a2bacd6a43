//! Which directories of a tree are projects, what kind each project is, and
//! which directories a scan skips.

use vstd::prelude::*;
use crate::model::ProjectType;
use crate::text::{chars_of, contains, contains_exec};

verus! {

/// Settings of a search for projects under a root directory.
#[derive(Debug)]
pub struct ProjectScanner {
    root: String,
    max_depth: usize,
    glob_pattern: String,
}

impl ProjectScanner {
    pub closed spec fn root_view(&self) -> Seq<char> {
        self.root@
    }

    pub closed spec fn depth_view(&self) -> usize {
        self.max_depth
    }

    pub closed spec fn pattern_view(&self) -> Seq<char> {
        self.glob_pattern@
    }

    pub fn new(root: String, max_depth: u8) -> (r: Self)
        ensures
            r.root_view() == root@,
            r.depth_view() == max_depth as usize,
            r.pattern_view() == "*/{.specify,specs}"@,
    {
        Self { root, max_depth: max_depth as usize, glob_pattern: String::from_str("*/{.specify,specs}") }
    }

    pub fn with_max_depth(self, depth: usize) -> (r: Self)
        ensures
            r.root_view() == self.root_view(),
            r.depth_view() == depth,
            r.pattern_view() == self.pattern_view(),
    {
        let mut s = self;
        s.max_depth = depth;
        s
    }

    pub fn with_pattern(self, pattern: String) -> (r: Self)
        ensures
            r.root_view() == self.root_view(),
            r.depth_view() == self.depth_view(),
            r.pattern_view() == pattern@,
    {
        let mut s = self;
        s.glob_pattern = pattern;
        s
    }

    pub fn root(&self) -> (r: &String)
        ensures
            r@ == self.root_view(),
    {
        &self.root
    }

    pub fn max_depth(&self) -> (r: usize)
        ensures
            r == self.depth_view(),
    {
        self.max_depth
    }

    pub fn glob_pattern(&self) -> (r: &String)
        ensures
            r@ == self.pattern_view(),
    {
        &self.glob_pattern
    }
}

/// One directory entry met while walking the tree: its path, its own name,
/// whether it is a directory, and the path of its parent, if any.
#[derive(Debug)]
pub struct WalkEntry {
    pub path: String,
    pub name: String,
    pub is_dir: bool,
    pub parent: Option<String>,
}

/// A `.specify` directory anywhere, or a `specs` directory that is not
/// inside a `.specify` directory.
pub open spec fn specify_dir(e: WalkEntry) -> bool {
    e.is_dir && (e.name@ == ".specify"@ || (e.name@ == "specs"@ && !contains(
        e.path@,
        "/.specify/"@,
    )))
}

/// The project that an entry reveals: the parent of a specification
/// directory, unless that parent lies inside a `.specify` directory.
pub open spec fn revealed(e: WalkEntry) -> Option<Seq<char>> {
    if specify_dir(e) {
        match e.parent {
            Some(p) => if contains(p@, "/.specify/"@) {
                None
            } else {
                Some(p@)
            },
            None => None,
        }
    } else {
        None
    }
}

/// Projects revealed by `entries`, each once, in the order first met.
pub open spec fn projects_found(entries: Seq<WalkEntry>) -> Seq<Seq<char>>
    decreases entries.len(),
{
    if entries.len() == 0 {
        Seq::empty()
    } else {
        let before = projects_found(entries.drop_last());
        match revealed(entries.last()) {
            Some(p) => if before.contains(p) {
                before
            } else {
                before.push(p)
            },
            None => before,
        }
    }
}

fn text_is(s: &String, lit: &str) -> (r: bool)
    ensures
        r == (s@ == lit@),
{
    let t = String::from_str(lit);
    *s == t
}

fn is_specify_dir(e: &WalkEntry) -> (r: bool)
    ensures
        r == specify_dir(*e),
{
    if !e.is_dir {
        return false;
    }
    if text_is(&e.name, ".specify") {
        true
    } else if text_is(&e.name, "specs") {
        !contains_exec(&chars_of(e.path.as_str()), "/.specify/")
    } else {
        false
    }
}

/// Find projects among the entries of a walk of the tree: the parents of
/// `.specify` and `specs` directories, each once, in the order met.
pub fn find_projects_in(entries: &Vec<WalkEntry>) -> (r: Vec<String>)
    ensures
        r@.len() == projects_found(entries@).len(),
        forall|i: int| 0 <= i < r@.len() ==> #[trigger] r@[i]@ == projects_found(entries@)[i],
{
    let mut found: Vec<String> = Vec::new();
    let mut k: usize = 0;
    while k < entries.len()
        invariant
            k <= entries@.len(),
            found@.len() == projects_found(entries@.take(k as int)).len(),
            forall|i: int|
                0 <= i < found@.len() ==> #[trigger] found@[i]@ == projects_found(
                    entries@.take(k as int),
                )[i],
        decreases entries.len() - k,
    {
        let ghost before = projects_found(entries@.take(k as int));
        assert(entries@.take(k + 1).drop_last() =~= entries@.take(k as int));
        assert(entries@.take(k + 1).last() == entries@[k as int]);
        let e = &entries[k];
        if is_specify_dir(e) {
            match &e.parent {
                Some(p) => {
                    if !contains_exec(&chars_of(p.as_str()), "/.specify/") {
                        let mut seen = false;
                        let mut j: usize = 0;
                        while j < found.len()
                            invariant
                                j <= found@.len(),
                                found@.len() == before.len(),
                                forall|i: int| 0 <= i < found@.len() ==> #[trigger] found@[i]@ == before[i],
                                seen <==> exists|i: int| 0 <= i < j && before[i] == p@,
                            decreases found.len() - j,
                        {
                            if found[j] == *p {
                                seen = true;
                            }
                            j += 1;
                        }
                        proof {
                            if before.contains(p@) {
                                let i = choose|i: int| 0 <= i < before.len() && before[i] == p@;
                                assert(0 <= i < j && before[i] == p@);
                            }
                        }
                        if !seen {
                            found.push(p.clone());
                            proof {
                                assert forall|i: int| 0 <= i < found@.len() implies #[trigger] found@[i]@
                                    == before.push(p@)[i] by {}
                            }
                        }
                    }
                },
                None => {},
            }
        }
        k += 1;
    }
    assert(entries@.take(k as int) =~= entries@);
    found
}

/// Which manifest files and source directories a project directory holds.
#[derive(Debug, Clone, Copy, PartialEq, Eq, Structural)]
pub struct ProjectMarkers {
    pub cargo_toml: bool,
    pub package_json: bool,
    pub pyproject_toml: bool,
    pub setup_py: bool,
    pub go_mod: bool,
    pub src_dir: bool,
    pub lib_dir: bool,
}

/// The first toolchain whose manifest is present decides, in the order
/// Rust, Node, Python, Go; source directories alone make a generic project.
pub open spec fn project_type_of(m: ProjectMarkers) -> ProjectType {
    if m.cargo_toml {
        ProjectType::Rust
    } else if m.package_json {
        ProjectType::Node
    } else if m.pyproject_toml || m.setup_py {
        ProjectType::Python
    } else if m.go_mod {
        ProjectType::Go
    } else if m.src_dir || m.lib_dir {
        ProjectType::Generic
    } else {
        ProjectType::Unknown
    }
}

/// Detect the project type from the files a project directory holds.
pub fn detect_project_type(markers: &ProjectMarkers) -> (r: ProjectType)
    ensures
        r == project_type_of(*markers),
{
    if markers.cargo_toml {
        return ProjectType::Rust;
    }
    if markers.package_json {
        return ProjectType::Node;
    }
    if markers.pyproject_toml || markers.setup_py {
        return ProjectType::Python;
    }
    if markers.go_mod {
        return ProjectType::Go;
    }
    if markers.src_dir || markers.lib_dir {
        return ProjectType::Generic;
    }
    ProjectType::Unknown
}

/// Directory names that a scan never enters.
pub open spec fn ignored_name(name: Seq<char>) -> bool {
    name == "node_modules"@ || name == "target"@ || name == ".git"@ || name == "dist"@ || name
        == "build"@ || name == "__pycache__"@
}

/// Check if a directory, given by its own name, should be ignored.
pub fn should_ignore(name: &str) -> (r: bool)
    ensures
        r == ignored_name(name@),
{
    let s = String::from_str(name);
    text_is(&s, "node_modules") || text_is(&s, "target") || text_is(&s, ".git") || text_is(
        &s,
        "dist",
    ) || text_is(&s, "build") || text_is(&s, "__pycache__")
}

} // verus!
