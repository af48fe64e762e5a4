//! A manager for a workspace of git checkouts: the decisions of synchronising
//! each declared project, and the reconciliation of the manifest with the
//! checkouts found on disk.
//!
//! The library computes on plain values. It never touches the file system and
//! never starts a process: a caller observes the world (the current directory,
//! whether a folder exists, what `git config` printed), hands the observation
//! in, and carries out the command that comes back.

pub mod action;
pub mod manifest;
pub mod path;
pub mod project;
pub mod provider;
pub mod remote;
pub mod repository;
pub mod text;
pub mod workspace;

pub use crate::action::{GitAction, Step};
pub use crate::manifest::AddOutcome;
pub use crate::project::{Build, BuildCommand, Operation, Project};
pub use crate::provider::Provider;
pub use crate::remote::RemoteUrl;
pub use crate::repository::Repository;
pub use crate::workspace::{Checkout, Entry, Workspace};
