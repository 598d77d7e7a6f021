//! Error types of the counter core.
use vstd::prelude::*;

verus! {

/// Errors that can occur during counter operations.
#[derive(Debug, Clone, Copy, PartialEq, Eq)]
pub enum CounterError {
    /// The counter has reached `i64::MAX` and cannot be incremented further.
    Overflow,
    /// The counter has reached `i64::MIN` and cannot be decremented further.
    Underflow,
}

impl CounterError {
    /// The human-readable message of the error.
    pub fn to_string(&self) -> (s: String)
        ensures
            s@ == match self {
                CounterError::Overflow => "Counter overflow"@,
                CounterError::Underflow => "Counter underflow"@,
            },
    {
        match self {
            CounterError::Overflow => String::from_str("Counter overflow"),
            CounterError::Underflow => String::from_str("Counter underflow"),
        }
    }
}

} // verus!
