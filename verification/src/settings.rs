//! The configuration values the core consumes.
//!
//! Loading them — from a file or from the process environment — is the
//! binary's business; the core only reads the plain values.

use vstd::prelude::*;

verus! {

/// Connection parameters for the credential database.
pub struct Database {
    /// Database name.
    pub name: String,
    /// Host to connect to.
    pub host: String,
    /// Port, defaulting to the usual one when absent.
    pub port: Option<u16>,
    /// Role to connect as.
    pub username: String,
    /// The role's password.
    pub password: String,
    /// Bound on the connection pool, when set.
    pub pool: Option<usize>,
}

} // verus!
