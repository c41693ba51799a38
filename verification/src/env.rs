//! Deployment environments and the checks the rest of the service keys off.

use vstd::prelude::*;

verus! {

/// The runtime environments the service distinguishes.
#[derive(PartialEq, Eq, Structural, Clone, Copy, Debug)]
pub enum Env {
    Development,
    Production,
    Test,
}

/// The environment an upper-cased name from the process environment denotes;
/// any name that is not recognised means development.
pub open spec fn spec_env_from_name(s: Seq<char>) -> Env {
    if s == "PRODUCTION"@ {
        Env::Production
    } else if s == "TEST"@ {
        Env::Test
    } else {
        Env::Development
    }
}

/// Parses an upper-cased environment name.
pub fn env_from_name(value: &str) -> (e: Env)
    ensures
        e == spec_env_from_name(value@),
{
    let owned = value.to_owned();
    if owned == String::from_str("PRODUCTION") {
        Env::Production
    } else if owned == String::from_str("TEST") {
        Env::Test
    } else {
        Env::Development
    }
}

/// Checks whether or not the application is running in production.
pub fn is_production(env: Env) -> (r: bool)
    ensures
        r == (env == Env::Production),
{
    match env {
        Env::Production => true,
        _ => false,
    }
}

/// Checks whether or not the application is running in development.
pub fn is_development(env: Env) -> (r: bool)
    ensures
        r == (env == Env::Development),
{
    match env {
        Env::Development => true,
        _ => false,
    }
}

/// Checks whether or not the application is running in test.
pub fn is_test(env: Env) -> (r: bool)
    ensures
        r == (env == Env::Test),
{
    match env {
        Env::Test => true,
        _ => false,
    }
}

} // verus!
