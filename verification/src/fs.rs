//! What is known of the file system: the kinds of paths, and the entries of
//! directories.
use vstd::prelude::*;

use crate::path::{is_same_path, same_path};
use crate::text::Text;

verus! {

/// What stands at a path.
#[derive(Clone, Copy, Debug, PartialEq, Eq, Structural)]
pub enum PathKind {
    /// Nothing.
    Missing,
    /// A file.
    File,
    /// A directory.
    Dir,
    /// Something else.
    Other,
}

/// What stands at one path.
#[derive(Debug)]
pub struct PathFact {
    /// The path.
    pub path: String,
    /// What stands there.
    pub kind: PathKind,
}

/// What stands at paths. At a path that is not listed there is nothing.
#[derive(Debug)]
pub struct FsView {
    /// The facts; where a path is listed more than once, the first one counts.
    pub facts: Vec<PathFact>,
}

/// The first fact of a list on a path.
pub open spec fn find_kind(facts: Seq<PathFact>, path: Text) -> PathKind
    decreases facts.len(),
{
    if facts.len() == 0 {
        PathKind::Missing
    } else if same_path(facts[0].path@, path) {
        facts[0].kind
    } else {
        find_kind(facts.skip(1), path)
    }
}

impl FsView {
    /// What stands at a path.
    pub open spec fn kind_of(self, path: Text) -> PathKind {
        find_kind(self.facts@, path)
    }

    /// Something stands at the path.
    pub open spec fn has(self, path: Text) -> bool {
        self.kind_of(path) != PathKind::Missing
    }

    /// A directory stands at the path.
    pub open spec fn has_dir(self, path: Text) -> bool {
        self.kind_of(path) == PathKind::Dir
    }

    /// A file stands at the path.
    pub open spec fn has_file(self, path: Text) -> bool {
        self.kind_of(path) == PathKind::File
    }

    /// What stands at a path.
    pub fn path_kind(&self, path: &str) -> (r: PathKind)
        ensures
            r == self.kind_of(path@),
    {
        let mut i: usize = 0;
        assert(self.facts@.skip(0) =~= self.facts@);
        while i < self.facts.len()
            invariant
                i <= self.facts@.len(),
                find_kind(self.facts@, path@) == find_kind(self.facts@.skip(i as int), path@),
            decreases self.facts@.len() - i,
        {
            if is_same_path(self.facts[i].path.as_str(), path) {
                return self.facts[i].kind;
            }
            assert(self.facts@.skip(i as int).skip(1) =~= self.facts@.skip(i + 1));
            i = i + 1;
        }
        PathKind::Missing
    }

    /// `Path::exists`.
    pub fn exists_at(&self, path: &str) -> (r: bool)
        ensures
            r == self.has(path@),
    {
        self.path_kind(path) != PathKind::Missing
    }

    /// `Path::is_dir`.
    pub fn is_dir(&self, path: &str) -> (r: bool)
        ensures
            r == self.has_dir(path@),
    {
        self.path_kind(path) == PathKind::Dir
    }

    /// `Path::is_file`.
    pub fn is_file(&self, path: &str) -> (r: bool)
        ensures
            r == self.has_file(path@),
    {
        self.path_kind(path) == PathKind::File
    }
}

/// An entry of a directory.
#[derive(Debug)]
pub struct DirEntry {
    /// The name of the entry, where it is UTF-8.
    pub file_name: Option<String>,
    /// Whether the entry itself is a directory.
    pub is_dir: bool,
}

} // verus!
