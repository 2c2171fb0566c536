//! Files and directories: the outcomes of operations on them.

pub mod directory;
pub mod error;
pub mod file_ops;
pub mod utils;
