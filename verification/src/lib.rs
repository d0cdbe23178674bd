//! Consolidates a tree of independently kept packages into one workspace.
//!
//! The library discovers package manifests under a root directory, records
//! each package's location, version and version-control provenance, builds an
//! umbrella workspace descriptor naming every member, and rewrites the
//! dependency lines of each member's manifest so that references between
//! sibling packages resolve by relative path, pinned commit, or version
//! number. The text surgery is byte-for-byte conservative: everything outside
//! the rewritten dependency lines is reproduced exactly.
pub mod chars;
pub mod commits;
pub mod deps;
pub mod inline;
pub mod paths;
pub mod registry;
pub mod remotes;
pub mod rewrite;
pub mod splitter;
pub mod toks;
pub mod walk;

