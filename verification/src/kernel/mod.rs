//! Building kernels: the settings of a build, its steps and what can go
//! wrong.

pub mod builder;
pub mod config;
pub mod error;
