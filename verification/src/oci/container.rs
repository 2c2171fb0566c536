//! The life of a container.

use vstd::prelude::*;
use vstd::string::*;

verus! {

/// Where a container stands in its life.
#[derive(Debug, Clone, Copy, PartialEq, Eq, Structural)]
pub enum ContainerState {
    /// Made, not started.
    Created,
    /// Running.
    Running,
    /// Stopped.
    Stopped,
    /// Paused.
    Paused,
    /// Failed.
    Error,
}

impl Default for ContainerState {
    fn default() -> (r: Self)
        ensures
            r == ContainerState::Created,
    {
        ContainerState::Created
    }
}

/// Why a container could not be made.
#[derive(Debug)]
pub enum ContainerError {
    /// No container has this id.
    NotFound(String),
    /// The id is taken.
    AlreadyExists(String),
    /// The configuration cannot be used, with the reason.
    InvalidConfig(String),
    /// The runtime failed.
    Runtime(String),
    /// The operating system failed.
    Io(String),
    /// The runtime configuration is malformed.
    OciSpec(String),
}

impl ContainerState {
    /// The state of a container after it was started.
    pub fn started(self) -> (r: Self)
        ensures
            r == ContainerState::Running,
    {
        ContainerState::Running
    }

    /// The state of a container after it was stopped.
    pub fn stopped(self) -> (r: Self)
        ensures
            r == ContainerState::Stopped,
    {
        ContainerState::Stopped
    }
}

/// Says whether the runtime configuration of a container can be built: it needs the
/// configuration of the process and the configuration for Linux.  Where both
/// are missing the process is named.
pub fn check_builder(has_process: bool, has_linux: bool) -> (r: Result<(), ContainerError>)
    ensures
        has_process && has_linux ==> r is Ok,
        !has_process ==> (r matches Err(ContainerError::InvalidConfig(m)) && m@
            == "Process configuration is required"@),
        has_process && !has_linux ==> (r matches Err(ContainerError::InvalidConfig(m)) && m@
            == "Linux configuration is required"@),
{
    if !has_process {
        Err(ContainerError::InvalidConfig(String::from_str("Process configuration is required")))
    } else if !has_linux {
        Err(ContainerError::InvalidConfig(String::from_str("Linux configuration is required")))
    } else {
        Ok(())
    }
}

} // verus!
