//! What can go wrong in a kernel build.

use crate::text::{chars_of, string_of, trim, trimmed};
use vstd::prelude::*;
use vstd::string::*;

verus! {

/// Why a kernel build failed.
#[derive(Debug)]
pub enum KernelError {
    /// The operating system failed.
    Io(String),
    /// A command ended with a failure.
    CommandError {
        /// The command that ran.
        command: String,
        /// The status with which it ended, or -1 where it has none.
        code: i32,
        /// What it wrote to its error output.
        message: String,
    },
    /// A file or directory is missing.
    MissingFile(String),
    /// The kernel configuration cannot be used.
    InvalidConfig(String),
    /// The build failed.
    BuildFailed(String),
    /// The operation is not supported.
    Unsupported(String),
}

impl KernelError {
    /// The error for a command that ended with a failure.  `code` is the
    /// status of the command, where it has one; `stderr` is what it wrote to
    /// its error output, which is reported without the white space around it.
    pub fn command_error(command: &str, code: Option<i32>, stderr: &str) -> (r: Self)
        ensures
            r matches KernelError::CommandError { command: c, code: k, message: m } && c@
                == command@ && k == (match code {
                Some(v) => v,
                None => -1i32,
            }) && m@ == trimmed(stderr@),
    {
        let chars = chars_of(stderr);
        let cut = trim(chars.as_slice());
        KernelError::CommandError {
            command: String::from_str(command),
            code: match code {
                Some(v) => v,
                None => -1,
            },
            message: string_of(cut.as_slice()),
        }
    }
}

} // verus!
