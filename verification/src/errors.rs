//! Error taxonomy of the content pipeline. Only open-class failures
//! cross the pipeline boundary; every other failure is locally absorbed.

use vstd::prelude::*;

verus! {

/// A container could not be opened at all: the one fatal failure class.
#[derive(Clone, Copy, Debug, PartialEq, Eq, Structural)]
pub enum OpenError {
    /// The file is missing or unreadable.
    NotFound,
    /// The archive exists but cannot be read as one.
    Corrupt,
    /// The archive is readable but is not a valid package.
    UnsupportedFormat,
}

/// A single manifest entry could not be read; absorbed by callers.
#[derive(Clone, Copy, Debug, PartialEq, Eq, Structural)]
pub enum ReadError {
    /// No resource lies at the requested location.
    NotFound,
    /// The resource's bytes do not decode as text.
    NotText,
    /// The resource exists but reading it failed.
    Unreadable,
}

/// Rendering fails only when the container cannot be opened.
#[derive(Clone, Copy, Debug, PartialEq, Eq, Structural)]
pub enum RenderError {
    Open(OpenError),
}

/// Metadata extraction fails only when the container cannot be opened.
#[derive(Clone, Copy, Debug, PartialEq, Eq, Structural)]
pub enum ExtractError {
    Open(OpenError),
}

/// Token issuance failures.
#[derive(Clone, Copy, Debug, PartialEq, Eq, Structural)]
pub enum TokenError {
    /// The expiry time could not be computed from the clock.
    Clock,
    /// Signing the token failed.
    Encode,
    /// The token could not be decoded or failed validation.
    Invalid,
}

} // verus!
