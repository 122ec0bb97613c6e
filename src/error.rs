//! The failures of the bump workflow.
use vstd::prelude::*;

verus! {

/// Why a step of the bump workflow failed.
#[derive(Clone, Debug, PartialEq, Eq)]
pub enum BumpError {
    /// One pending record could not be read as a change record.
    MalformedRecord { id: String },
    /// There is no pending record to aggregate.
    NoPendingChanges,
    /// The project manifest does not name the version-bearing file.
    Configuration,
    /// The version-bearing file has no recognized version assignment.
    VersionMarkerNotFound,
    /// A version string is not `MAJOR.MINOR.PATCH` with 32-bit components.
    InvalidVersion,
    /// Reading, writing or deleting a file failed.
    Io { path: String },
}

} // verus!
