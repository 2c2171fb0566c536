//! Copying, moving and deleting files: what is checked before the disk is
//! touched, and where things go.

use crate::fs::directory::PathKind;
use crate::fs::error::{FsError, IoFailure};
use crate::paths::{file_name, join, joined, last_component};
use vstd::prelude::*;
use vstd::string::*;

verus! {

/// Where a copy of the file `from` goes when it is copied to `to`, or why
/// it cannot be copied: the source must be there and be a file; a
/// destination that is a directory takes the copy under the name of the
/// source.
pub open spec fn copy_target_of(
    from: Seq<char>,
    from_kind: PathKind,
    to: Seq<char>,
    to_kind: PathKind,
) -> Option<Seq<char>> {
    if from_kind != PathKind::File {
        None
    } else if to_kind == PathKind::Directory {
        match last_component(from) {
            Some(name) => Some(joined(to, name)),
            None => None,
        }
    } else {
        Some(to)
    }
}

/// Where a copy of the file `from` goes when it is copied to `to`.
/// `from_kind` and `to_kind` say what the two paths lead to.
pub fn copy_target(from: &str, from_kind: PathKind, to: &str, to_kind: PathKind) -> (r: Result<
    String,
    FsError,
>)
    ensures
        match r {
            Ok(p) => copy_target_of(from@, from_kind, to@, to_kind) == Some(p@),
            Err(e) => copy_target_of(from@, from_kind, to@, to_kind) is None && (match from_kind {
                PathKind::Missing => e matches FsError::NotFound(p) && p@ == from@,
                PathKind::Directory => e matches FsError::InvalidPath(m) && m@
                    == "Source is not a file"@,
                PathKind::File => e matches FsError::InvalidPath(m) && m@
                    == "Invalid source filename"@,
            }),
        },
{
    match from_kind {
        PathKind::Missing => Err(FsError::not_found(from)),
        PathKind::Directory => Err(FsError::invalid_path("Source is not a file")),
        PathKind::File => match to_kind {
            PathKind::Directory => match file_name(from) {
                Some(name) => Ok(join(to, name.as_str())),
                None => Err(FsError::invalid_path("Invalid source filename")),
            },
            _ => Ok(String::from_str(to)),
        },
    }
}

/// The error for a copy to `dest` that the operating system refused: a
/// denial names the destination, anything else is passed on.
pub fn copy_failed(failure: IoFailure, dest: &str, message: &str) -> (r: FsError)
    ensures
        match failure {
            IoFailure::PermissionDenied => r matches FsError::PermissionDenied(p) && p@ == dest@,
            _ => r matches FsError::Io(m) && m@ == message@,
        },
{
    match failure {
        IoFailure::PermissionDenied => FsError::permission_denied(dest),
        _ => FsError::Io(String::from_str(message)),
    }
}

/// How something is moved where renaming it does not work.
#[derive(Debug, Clone, Copy, PartialEq, Eq, Structural)]
pub enum MoveFallback {
    /// Copy the directory with what it holds, then remove it.
    CopyTree,
    /// Copy the file, then remove it.
    CopyFile,
}

/// How the thing at `from` is moved where renaming it does not work.  What
/// is not there cannot be moved.
pub fn move_fallback(from: &str, from_kind: PathKind) -> (r: Result<MoveFallback, FsError>)
    ensures
        match from_kind {
            PathKind::Missing => r matches Err(FsError::NotFound(p)) && p@ == from@,
            PathKind::Directory => r matches Ok(MoveFallback::CopyTree),
            PathKind::File => r matches Ok(MoveFallback::CopyFile),
        },
{
    match from_kind {
        PathKind::Missing => Err(FsError::not_found(from)),
        PathKind::Directory => Ok(MoveFallback::CopyTree),
        PathKind::File => Ok(MoveFallback::CopyFile),
    }
}

/// Says whether the file at `path` may be deleted: it must be there, and it
/// must not be a directory.
pub fn check_delete(path: &str, kind: PathKind) -> (r: Result<(), FsError>)
    ensures
        match kind {
            PathKind::Missing => r matches Err(FsError::NotFound(p)) && p@ == path@,
            PathKind::Directory => r matches Err(FsError::InvalidPath(m)) && m@
                == "Path is a directory, use remove_dir instead"@,
            PathKind::File => r is Ok,
        },
{
    match kind {
        PathKind::Missing => Err(FsError::not_found(path)),
        PathKind::Directory => Err(
            FsError::invalid_path("Path is a directory, use remove_dir instead"),
        ),
        PathKind::File => Ok(()),
    }
}

} // verus!
