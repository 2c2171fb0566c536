//! Directories.

use crate::fs::error::FsError;
use vstd::prelude::*;
use vstd::string::*;

verus! {

/// What a path leads to.
#[derive(Debug, Clone, Copy, PartialEq, Eq, Structural)]
pub enum PathKind {
    /// Nothing.
    Missing,
    /// A directory.
    Directory,
    /// A file, or anything else that is no directory.
    File,
}

/// A directory that was opened or made.
#[derive(Debug)]
pub struct StdDirectory {
    path: String,
}

impl StdDirectory {
    /// The path of the directory.
    pub closed spec fn location(&self) -> Seq<char> {
        self.path@
    }

    /// The path of the directory.
    pub fn path(&self) -> (r: &str)
        ensures
            r@ == self.location(),
    {
        self.path.as_str()
    }

    /// Opens the directory at `path`, where `kind` says what the path leads
    /// to: a missing path is not found, and a path that leads to something
    /// else is no directory.
    pub fn open(path: &str, kind: PathKind) -> (r: Result<Self, FsError>)
        ensures
            match kind {
                PathKind::Directory => r matches Ok(d) && d.location() == path@,
                PathKind::Missing => r matches Err(FsError::NotFound(p)) && p@ == path@,
                PathKind::File => r matches Err(FsError::InvalidPath(m)) && m@
                    == "Not a directory"@,
            },
    {
        match kind {
            PathKind::Missing => Err(FsError::not_found(path)),
            PathKind::File => Err(FsError::invalid_path("Not a directory")),
            PathKind::Directory => Ok(StdDirectory { path: String::from_str(path) }),
        }
    }

    /// Says whether the directory at `path` may be made, where `kind` says
    /// what the path leads to: a path that leads to anything is taken.
    pub fn create(path: &str, kind: PathKind) -> (r: Result<Self, FsError>)
        ensures
            match kind {
                PathKind::Missing => r matches Ok(d) && d.location() == path@,
                _ => r matches Err(FsError::AlreadyExists(p)) && p@ == path@,
            },
    {
        match kind {
            PathKind::Missing => Ok(StdDirectory { path: String::from_str(path) }),
            _ => Err(FsError::already_exists(path)),
        }
    }

    /// Says whether the directory at `path` may be made with its parents,
    /// where `kind` says what the path leads to: a directory that is there is
    /// good, a path that leads to something else cannot be used.
    pub fn create_all(path: &str, kind: PathKind) -> (r: Result<Self, FsError>)
        ensures
            match kind {
                PathKind::File => r matches Err(FsError::InvalidPath(m)) && m@
                    == "Path exists but is not a directory"@,
                _ => r matches Ok(d) && d.location() == path@,
            },
    {
        match kind {
            PathKind::File => Err(FsError::invalid_path("Path exists but is not a directory")),
            _ => Ok(StdDirectory { path: String::from_str(path) }),
        }
    }
}

} // verus!
