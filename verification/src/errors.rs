//! The kinds of failure that the library reports, matching the kinds of
//! `std::io::Error` under which the application shows them.

use vstd::prelude::*;

verus! {

/// The kind of a failure, one for each `std::io::ErrorKind` the tool reports.
#[derive(Clone, Copy, Debug, PartialEq, Eq)]
pub enum FailureKind {
    NotFound,
    InvalidFilename,
    InvalidInput,
    InvalidData,
    AlreadyExists,
}

} // verus!
