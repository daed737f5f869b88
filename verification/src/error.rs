//! Error taxonomy of the conversion pipeline.
//!
//! No error is caught and recovered internally: every failure unwinds the
//! conversion and is surfaced to the caller.

use vstd::prelude::*;

verus! {

/// A malformed source record, as reported by a format-specific decoder.
/// Surfaced immediately; the conversion never retries or skips past it.
#[derive(Debug)]
pub struct ParseError {
    /// Decoder-provided description of the malformed record.
    pub message: String,
}

/// Every failure the conversion pipeline can report.
#[derive(Debug)]
pub enum ConversionError {
    /// A source record failed to decode; the conversion stops at that record.
    Parse(ParseError),
    /// Finished arrays and the declared schema disagree (column count,
    /// length, type, or nullability).  A programming-level invariant
    /// violation, never an expected runtime condition.
    SchemaMismatch,
    /// The sink was used outside its `Open` state (a write after finalize,
    /// or a second finalize).  A programmer error.
    InvalidState,
}

impl ConversionError {
    /// Whether this error reports a malformed source record.
    pub fn is_parse(&self) -> (r: bool)
        ensures
            r == (self is Parse),
    {
        match self {
            ConversionError::Parse(_) => true,
            _ => false,
        }
    }
}

} // verus!
