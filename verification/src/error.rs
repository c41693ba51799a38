//! The error taxonomy of the library.
//!
//! Every rejection path of the core produces exactly one value of one of these
//! enums; the RPC boundary collapses them so that a client learns nothing
//! beyond its own status code.

use vstd::prelude::*;

verus! {

/// The library's top-level error. The variants the original service produced
/// through its infrastructure crates live with the binary; the core itself
/// only ever reports a claims-configuration failure.
#[derive(Debug)]
pub enum HeimdallrError {
    JwtError(&'static str),
}

impl HeimdallrError {
    /// The human-readable message carried by the error.
    pub fn message(&self) -> (m: &'static str)
        ensures
            self matches HeimdallrError::JwtError(s) && m == s,
    {
        match self {
            HeimdallrError::JwtError(s) => s,
        }
    }
}

/// Why a token failed verification. The kinds stay distinguishable inside the
/// server so that refresh logic can react to each, and are collapsed to one
/// opaque status at the RPC boundary.
#[derive(PartialEq, Eq, Structural, Clone, Copy, Debug)]
pub enum TokenError {
    Malformed,
    SignatureInvalid,
    NotYetValid,
    Expired,
    Revoked,
}

/// Why a credential check failed. All three collapse to the same
/// client-visible rejection to prevent username enumeration.
#[derive(PartialEq, Eq, Structural, Clone, Copy, Debug)]
pub enum CredentialError {
    NotFound,
    Mismatch,
    AccountUnavailable,
}

/// The classified outcome of a rejected login.
#[derive(PartialEq, Eq, Structural, Clone, Copy, Debug)]
pub enum LoginRejection {
    InvalidRequest,
    InvalidCredentials,
    PoolTimeout,
    InternalError,
}

} // verus!
