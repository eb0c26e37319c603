//! The engine's error vocabulary.
//!
//! Configuration errors are fatal and surface at construction time; element
//! parse errors are recoverable per record; propagation divergence is
//! recoverable per body and per tick.

use vstd::prelude::*;

verus! {

/// A construction-time configuration value was rejected.
#[derive(Clone, Copy, Debug, PartialEq, Eq, Structural)]
pub enum ConfigError {
    /// A scale factor or gravitational parameter outside its valid range.
    InvalidConfiguration,
}

/// The analytical propagation could not produce a valid state for a body.
///
/// The engine answers divergence by keeping the body's previous position
/// (freeze in place); it never halts the run.
#[derive(Clone, Copy, Debug, PartialEq, Eq, Structural)]
pub enum PropagationError {
    Divergence,
}

/// A two-line element record was rejected. Each variant names the first
/// check, in the order the parser applies them, that the record failed.
#[derive(Clone, Copy, Debug, PartialEq, Eq, Structural)]
pub enum ElementParseError {
    /// A line is not exactly 69 bytes long.
    BadLength,
    /// A line does not begin with its line number and a blank.
    BadLineNumber,
    /// A line's trailing checksum digit does not match its contents.
    BadChecksum,
    /// A numeric field holds a character it may not.
    BadField,
    /// The two lines name different catalog numbers.
    ObjectMismatch,
    /// The record's mean motion is zero, so it describes no orbit.
    ZeroMeanMotion,
}

} // verus!
