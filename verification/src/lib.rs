//! Renders a shell-prompt segment that summarizes a repository's status:
//! the current branch (or a detached-state label), ahead/behind commit
//! counts versus upstream, and counts of staged, unstaged, untracked and
//! conflicted files.
//!
//! The library is purely computational: it parses the raw bytes of a
//! machine-readable status report and emits an ordered list of colored
//! text segments.  Running the status queries themselves is left to the
//! caller.

pub mod branch;
pub mod color;
pub mod decode;
pub mod error;
pub mod parse;
pub mod scan;
pub mod segment;
pub mod status;
