//! Errors of the launcher's pipeline.
//!
//! The variants that come from the outside world (network, disk, JSON, zip)
//! carry the outside error's text; the others carry the values the launcher
//! decided on.
use vstd::prelude::*;

verus! {

#[derive(Debug, Clone, PartialEq, Eq)]
pub enum Error {
    /// A request failed; the text of the transport error.
    Network(String),
    /// A disk operation failed; the text of the I/O error.
    Io(String),
    /// A JSON document did not have the expected shape.
    Json(String),
    /// An archive could not be read.
    Zip { path: String, source: String },
    /// A downloaded file does not have the announced SHA-1.
    ChecksumMismatch { path: String, expected: String, actual: String },
    /// The version manifest does not list the requested game version.
    VersionNotFound(String),
    /// No Java of at least the required major version was found.
    JavaNotFound { required: u32 },
    /// The promotions list has no build for the game version.
    ForgeVersionNotFound(String),
    /// The Forge installer exited with a failure.
    ForgeInstallFailed { code: Option<i32>, details: String },
    /// The installer ran but its version file is not where it should be.
    ForgeVersionJsonMissing(String),
    /// Any other failure, described in words.
    Other(String),
}

/// Result of the launcher's operations.
pub type Result<T> = core::result::Result<T, Error>;

} // verus!
