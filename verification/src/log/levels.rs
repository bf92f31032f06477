//! Log severity levels.
use vstd::prelude::*;

verus! {

/// Severity, from Trace (lowest) to Fatal (highest).
#[derive(Clone, Copy, Debug, PartialEq, Eq, Structural)]
pub enum LogLevel {
    Trace,
    Debug,
    Info,
    Warn,
    Error,
    Fatal,
}

} // verus!
