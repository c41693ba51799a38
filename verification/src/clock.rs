//! Access to the process clock.

use vstd::prelude::*;

verus! {

/// Relies on chrono::Utc::now / DateTime::timestamp: the clock's current
/// reading as whole seconds since the Unix epoch. Two readings may differ and
/// nothing is assumed of the value; every caller states what holds of its
/// result whatever the clock returned.
#[verifier::external_body]
pub(crate) fn now_timestamp() -> i64 {
    chrono::Utc::now().timestamp()
}

} // verus!
