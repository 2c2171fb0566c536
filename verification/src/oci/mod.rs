//! Containers that follow the OCI runtime format.

pub mod container;
