//! The logging policy: what verbosity on the command line means.
//!
//! Wiring the chosen level into a log sink is the binary's work.

use vstd::prelude::*;

verus! {

/// The filtering levels the service distinguishes.
#[derive(PartialEq, Eq, Structural, Clone, Copy, Debug)]
pub enum LogLevel {
    Info,
    Debug,
    Trace,
}

/// The level a verbosity count selects.
pub open spec fn spec_level_for_verbosity(verbosity: u64) -> LogLevel {
    if verbosity == 0 {
        LogLevel::Info
    } else if verbosity <= 2 {
        LogLevel::Debug
    } else {
        LogLevel::Trace
    }
}

/// Chooses the base log level from how often the verbose flag was given.
pub fn level_for_verbosity(verbosity: u64) -> (l: LogLevel)
    ensures
        l == spec_level_for_verbosity(verbosity),
{
    if verbosity == 0 {
        LogLevel::Info
    } else if verbosity <= 2 {
        LogLevel::Debug
    } else {
        LogLevel::Trace
    }
}

/// Whether the async reactor's own logging is capped at warnings: only at
/// the two lowest verbosities.
pub fn quiet_reactor(verbosity: u64) -> (r: bool)
    ensures
        r == (verbosity < 2),
{
    verbosity < 2
}

} // verus!
