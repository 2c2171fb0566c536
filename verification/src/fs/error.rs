//! What can go wrong with files and directories.

use vstd::prelude::*;
use vstd::string::*;

verus! {

/// Why an operation on the filesystem failed.
#[derive(Debug)]
pub enum FsError {
    /// The operating system failed.
    Io(String),
    /// No file or directory has this path.
    NotFound(String),
    /// The path may not be touched.
    PermissionDenied(String),
    /// The path is taken.
    AlreadyExists(String),
    /// The path cannot be used, with the reason.
    InvalidPath(String),
    /// The operation is not supported, with the reason.
    NotSupported(String),
    /// The directory holds something.
    DirectoryNotEmpty(String),
    /// Another failure, with its message.
    Other(String),
}

/// How the operating system classes a failure, as far as the rest looks at
/// it.
#[derive(Debug, Clone, Copy, PartialEq, Eq, Structural)]
pub enum IoFailure {
    /// Nothing has the path.
    NotFound,
    /// The path may not be touched.
    PermissionDenied,
    /// Any other failure.
    Other,
}

impl FsError {
    /// The error for a path that nothing has.
    pub fn not_found(path: &str) -> (r: Self)
        ensures
            r matches FsError::NotFound(p) && p@ == path@,
    {
        FsError::NotFound(String::from_str(path))
    }

    /// The error for a path that may not be touched.
    pub fn permission_denied(path: &str) -> (r: Self)
        ensures
            r matches FsError::PermissionDenied(p) && p@ == path@,
    {
        FsError::PermissionDenied(String::from_str(path))
    }

    /// The error for a path that is taken.
    pub fn already_exists(path: &str) -> (r: Self)
        ensures
            r matches FsError::AlreadyExists(p) && p@ == path@,
    {
        FsError::AlreadyExists(String::from_str(path))
    }

    /// The error for a path that cannot be used.
    pub fn invalid_path(msg: &str) -> (r: Self)
        ensures
            r matches FsError::InvalidPath(m) && m@ == msg@,
    {
        FsError::InvalidPath(String::from_str(msg))
    }

    /// The error for an operation that is not supported.
    pub fn not_supported(msg: &str) -> (r: Self)
        ensures
            r matches FsError::NotSupported(m) && m@ == msg@,
    {
        FsError::NotSupported(String::from_str(msg))
    }

    /// The error for a directory that holds something.
    pub fn directory_not_empty(path: &str) -> (r: Self)
        ensures
            r matches FsError::DirectoryNotEmpty(p) && p@ == path@,
    {
        FsError::DirectoryNotEmpty(String::from_str(path))
    }

    /// The error for a failure of the operating system on `path`: a missing
    /// path and a denied one are named as such, anything else is passed on
    /// with its message.
    pub fn from_io(failure: IoFailure, path: &str, message: &str) -> (r: Self)
        ensures
            match failure {
                IoFailure::NotFound => r matches FsError::NotFound(p) && p@ == path@,
                IoFailure::PermissionDenied => r matches FsError::PermissionDenied(p) && p@
                    == path@,
                IoFailure::Other => r matches FsError::Io(m) && m@ == message@,
            },
    {
        match failure {
            IoFailure::NotFound => FsError::not_found(path),
            IoFailure::PermissionDenied => FsError::permission_denied(path),
            IoFailure::Other => FsError::Io(String::from_str(message)),
        }
    }
}

} // verus!
