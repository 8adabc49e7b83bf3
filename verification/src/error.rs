//! The errors of identifier generation and parsing.
use vstd::prelude::*;
use vstd::string::StringExecFns;
use crate::text::{decimal_digits, push_decimal_digits};

verus! {

/// What can go wrong when generating or parsing an identifier.
#[derive(Debug, Clone, Copy, PartialEq, Eq, Structural)]
pub enum IdError {
    /// The clock reads before the custom epoch, or before the last
    /// timestamp used, by this many milliseconds.
    ClockSkew { elapsed_ms: u64 },
    /// No sequence number is left for this millisecond.
    SequenceExhausted,
    /// The node id is above the largest one, 1023.
    InvalidNodeId(u16),
    /// The text is no identifier.
    InvalidFormat,
}

/// The human-readable text of an error.
pub open spec fn error_text(e: IdError) -> Seq<char> {
    match e {
        IdError::ClockSkew { elapsed_ms } => "clock skew detected: "@ + decimal_digits(
            elapsed_ms as nat,
        ) + " ms backward"@,
        IdError::SequenceExhausted => "sequence exhausted for this millisecond"@,
        IdError::InvalidNodeId(id) => "node id "@ + decimal_digits(id as nat)
            + " exceeds maximum "@ + decimal_digits(1023),
        IdError::InvalidFormat => "invalid ID format"@,
    }
}

impl IdError {
    /// The human-readable text of this error.
    pub fn to_string(&self) -> (r: String)
        ensures
            r@ == error_text(*self),
    {
        match *self {
            IdError::ClockSkew { elapsed_ms } => {
                let mut s = String::from_str("clock skew detected: ");
                push_decimal_digits(&mut s, elapsed_ms);
                s.append(" ms backward");
                s
            },
            IdError::SequenceExhausted => String::from_str(
                "sequence exhausted for this millisecond",
            ),
            IdError::InvalidNodeId(id) => {
                let mut s = String::from_str("node id ");
                push_decimal_digits(&mut s, id as u64);
                s.append(" exceeds maximum ");
                push_decimal_digits(&mut s, 1023);
                s
            },
            IdError::InvalidFormat => String::from_str("invalid ID format"),
        }
    }
}

} // verus!
