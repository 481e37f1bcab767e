//! The error kinds of the resolver/fetcher core, as one tagged enum.

use vstd::prelude::*;

verus! {

/// Everything that can go wrong while resolving a query or fetching a
/// resource.  One variant per failure kind; transient server conditions
/// never surface here because the fetcher absorbs them by retrying.
#[derive(Debug, Clone, Copy, PartialEq, Eq, Structural)]
pub enum Error {
    /// HTTP 404 on a fetch; the index layer substitutes an empty result.
    NotFound,
    /// Any other unsuccessful HTTP status, carrying that status.
    HttpFailure { status: u16 },
    /// A transport-level (connection) failure.
    HttpError,
    /// The fetch attempt budget was exhausted.
    RetryBudgetExhausted,
    /// A redirect without a usable `Location`.
    MalformedRedirect,
    /// Malformed concrete version text.
    VersionParse,
    /// Malformed version-filter text.
    FilterParse,
    /// A prerelease version or filter with a major version other than 1.
    UnsupportedPrerelease,
    /// The configured package-root is not a valid base URL.
    InvalidPackageRoot,
    /// A declared hash string is not well-formed.
    InvalidHashFormat,
}

impl Error {
    /// A short stable description, for callers that print errors.
    pub fn describe(&self) -> (r: &'static str)
        ensures
            r@ == self.spec_describe(),
    {
        match self {
            Error::NotFound => "page not found",
            Error::HttpFailure { .. } => "HTTP failure",
            Error::HttpError => "HTTP error",
            Error::RetryBudgetExhausted => "too many attempts",
            Error::MalformedRedirect => "unexpected redirect kind",
            Error::VersionParse => "invalid version",
            Error::FilterParse => "invalid version filter",
            Error::UnsupportedPrerelease => "prerelease channel is not supported yet",
            Error::InvalidPackageRoot => "package root is not a valid URL",
            Error::InvalidHashFormat => "invalid hash format",
        }
    }

    pub open spec fn spec_describe(&self) -> Seq<char> {
        match self {
            Error::NotFound => "page not found"@,
            Error::HttpFailure { .. } => "HTTP failure"@,
            Error::HttpError => "HTTP error"@,
            Error::RetryBudgetExhausted => "too many attempts"@,
            Error::MalformedRedirect => "unexpected redirect kind"@,
            Error::VersionParse => "invalid version"@,
            Error::FilterParse => "invalid version filter"@,
            Error::UnsupportedPrerelease => "prerelease channel is not supported yet"@,
            Error::InvalidPackageRoot => "package root is not a valid URL"@,
            Error::InvalidHashFormat => "invalid hash format"@,
        }
    }
}

} // verus!
