//! Backups of copy-on-write subvolumes, and what surrounds them.
//!
//! The heart of the crate is the backup manager ([`backup`]): it takes a
//! snapshot of a subvolume, serializes it, seals it where encryption is
//! switched on, stores the blob and then the record of the backup, and undoes
//! these steps for a restore or a deletion.  The manager decides; it touches
//! neither disk nor network.  Every operation is a value that is told what
//! the last piece of outside work gave and answers with the next one.
//!
//! Beside it stand the lineage index of snapshots ([`snapshot`]), the API
//! keys of services ([`auth`]), the settings and steps of kernel builds
//! ([`kernel`]), package lists ([`package`]), the outcomes of file
//! operations ([`fs`]) and the life of containers ([`oci`]).  The modules
//! [`text`], [`paths`], [`strmap`], [`command`], [`ident`] and [`clock`]
//! hold what the others share.
//!
//! All functions are verified against the contracts that they carry.  What
//! is taken on trust of other crates is marked where it stands: the cipher,
//! the random source, identifiers, the clock and calendar, Base64 and the
//! paths of the object store.

pub mod auth;
pub mod backup;
pub mod clock;
pub mod command;
pub mod fs;
pub mod ident;
pub mod kernel;
pub mod oci;
pub mod package;
pub mod paths;
pub mod random;
pub mod snapshot;
pub mod strmap;
pub mod text;
