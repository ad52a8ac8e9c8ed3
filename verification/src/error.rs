//! The failure kinds a parse can surface.  A failure aborts segment
//! emission entirely; no partial result is ever returned beside one.

use vstd::prelude::*;

verus! {

/// A classified parse failure.
///
/// `EmptyOutput` mirrors the guard against a report that is non-empty yet
/// yields no first line when split; line splitting always yields at least
/// one piece, so no function of this library actually returns it.
#[derive(Clone, Copy, Debug, PartialEq, Eq, Structural)]
pub enum GitError {
    /// A consumed line (or a two-byte status code) was not valid UTF-8.
    InvalidUtf8,
    /// A file-status code shorter than two characters.
    InvalidFileStatus,
    /// A non-empty report with no first line at all.
    EmptyOutput,
}

impl GitError {
    /// A human-readable description of the failure.
    pub fn message(&self) -> (r: &'static str)
        ensures
            *self is InvalidUtf8 ==> r@ == "Invalid utf8 in git output"@,
            *self is InvalidFileStatus ==> r@ == "Invalid file status"@,
            *self is EmptyOutput ==> r@ == "Empty git output"@,
    {
        match self {
            GitError::InvalidUtf8 => "Invalid utf8 in git output",
            GitError::InvalidFileStatus => "Invalid file status",
            GitError::EmptyOutput => "Empty git output",
        }
    }
}

} // verus!
