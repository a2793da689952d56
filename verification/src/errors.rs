//! Error taxonomy of the labeling core.

use vstd::prelude::*;

verus! {

/// An error of the labeling core.
///
/// `Filesystem` wraps the repository-relative path on which the underlying
/// stat or attribute operation failed.
#[derive(Debug, PartialEq, Eq)]
pub enum Error {
    /// No recognizable policy exists at the given source.
    NotFound,
    /// A policy blob is present but unparsable.
    PolicyFormat,
    /// A commit revision name does not resolve.
    UnknownRevision,
    /// A root-filesystem descriptor is closed or invalid.
    InvalidHandle,
    /// A malformed relative path, such as one with a parent-directory escape.
    InvalidPath,
    /// No applicable label, and the caller disallowed that outcome.
    PolicyResolution,
    /// An underlying filesystem operation failed on the wrapped path.
    Filesystem(Vec<u8>),
    /// Cancellation fired between filesystem operations.
    Cancelled,
}

/// Mathematical shape of an [`Error`]: the same variants over `Seq<u8>`.
pub enum ErrorSpec {
    NotFound,
    PolicyFormat,
    UnknownRevision,
    InvalidHandle,
    InvalidPath,
    PolicyResolution,
    Filesystem(Seq<u8>),
    Cancelled,
}

impl View for Error {
    type V = ErrorSpec;

    open spec fn view(&self) -> ErrorSpec {
        match self {
            Error::NotFound => ErrorSpec::NotFound,
            Error::PolicyFormat => ErrorSpec::PolicyFormat,
            Error::UnknownRevision => ErrorSpec::UnknownRevision,
            Error::InvalidHandle => ErrorSpec::InvalidHandle,
            Error::InvalidPath => ErrorSpec::InvalidPath,
            Error::PolicyResolution => ErrorSpec::PolicyResolution,
            Error::Filesystem(p) => ErrorSpec::Filesystem(p@),
            Error::Cancelled => ErrorSpec::Cancelled,
        }
    }
}

} // verus!
