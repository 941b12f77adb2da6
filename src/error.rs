use vstd::prelude::*;

verus! {

/// Why a run stops.
#[derive(Debug, Clone)]
pub enum Error {
    /// A repository's service index could not be fetched or decoded.
    RepositoryUnreachable,
    /// A repository configuration lists a source without its address.
    MalformedConfig,
    /// A service index advertises no package base address.
    MalformedServiceIndex,
    /// No configured repository publishes this package version.
    PackageNotFound { id: String, version: String },
    /// A download address could not be composed from the base address.
    InvalidUrl,
    /// The hashing tool could not be started.
    HashToolUnavailable,
    /// The hashing tool exited unsuccessfully, with this status if it had one.
    HashToolFailed { status: Option<i32> },
}

} // verus!
