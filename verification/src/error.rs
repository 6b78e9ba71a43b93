//! Error taxonomy of the backend. Every failure a caller can recover from
//! is reported through one of these variants; none of the library's
//! verified functions panics.
use vstd::prelude::*;

verus! {

/// The kinds of recoverable failure the backend reports.
#[derive(Clone, Copy, Debug, PartialEq, Eq, Structural)]
pub enum ErrorKind {
    /// A shape, length or format mismatch, detected before any mutation.
    InvalidArgument,
    /// A well-formed request for which no path is implemented.
    UnsupportedOperation,
    /// No buffer is registered under the given id.
    NotFound,
    /// The buffer under the given id is already exclusively checked out.
    AlreadyCheckedOut,
}

} // verus!
