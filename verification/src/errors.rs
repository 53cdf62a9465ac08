//! Typed errors: the general library error and the fatal outcomes of the
//! fetch engine.

use vstd::prelude::*;

verus! {

/// General library error, one variant per failure source.
#[derive(Debug, Clone, PartialEq, Eq)]
pub enum Ao3ApiError {
    SelectorError(String),
    RegexError(String),
    SerdeError(String),
    IoError(String),
    GenericError(String),
}

/// A fatal fetch outcome: the engine stops instead of retrying or
/// following, and reports the offending status code.
#[derive(Debug, Clone, Copy, PartialEq, Eq, Structural)]
pub enum FetchError {
    /// The status code is outside the known success, redirect and
    /// transient sets and must not be silently retried or followed.
    UnknownStatus(u16),
    /// A redirect whose target is a login page; login flows are driven by
    /// the authentication helper, never auto-followed.
    LoginRedirect(u16),
    /// A redirect status without a usable `Location` header.
    MissingLocation(u16),
}

} // verus!
