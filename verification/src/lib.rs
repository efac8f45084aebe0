//! Resolution of the compiled artifact path for a package or workspace.
//!
//! Given facts about a directory tree (which directories hold a manifest,
//! what that manifest declares, and what build configuration is present),
//! this crate locates the manifest governing a working directory, determines
//! the workspace root that owns the shared output directory, selects the
//! one target to operate on, and composes the artifact path — or fails with
//! a typed error.

pub mod laws;
pub mod model;
pub mod resolve;

pub use model::{
    BuildSelection, ConfigRead, DirNode, Fs, ManifestFacts, Metadata, PackageFacts, Profile,
    ResolveError, ResolveErrorV, ResolvedArtifact, Target, TargetKind,
};
pub use resolve::{build_artifact, read_metadata};
