//! `Counter`, the canonical core type of the Swift–Rust bridge.
//!
//! A counter holds one `i64`. Every operation either succeeds and moves the
//! value by the stated amount, or fails at the `i64` boundary with a typed
//! error and leaves the value as it was.
use vstd::prelude::*;
use crate::errors::CounterError;

verus! {

/// An incrementable counter.
pub struct Counter {
    value: i64,
}

impl View for Counter {
    type V = i64;

    closed spec fn view(&self) -> i64 {
        self.value
    }
}

/// The outcome of adding `delta` to `v`: the new value, or the error for the
/// boundary that the sum would cross.
pub open spec fn spec_add(v: i64, delta: i64) -> Result<i64, CounterError> {
    if i64::MIN <= v + delta <= i64::MAX {
        Ok((v + delta) as i64)
    } else if delta > 0 {
        Err(CounterError::Overflow)
    } else {
        Err(CounterError::Underflow)
    }
}

/// The outcome of incrementing `v`.
pub open spec fn spec_increment(v: i64) -> Result<i64, CounterError> {
    if v < i64::MAX {
        Ok((v + 1) as i64)
    } else {
        Err(CounterError::Overflow)
    }
}

/// The outcome of decrementing `v`.
pub open spec fn spec_decrement(v: i64) -> Result<i64, CounterError> {
    if v > i64::MIN {
        Ok((v - 1) as i64)
    } else {
        Err(CounterError::Underflow)
    }
}

/// The value a counter holds after an operation with the given outcome.
pub open spec fn value_after(old: i64, outcome: Result<i64, CounterError>) -> i64 {
    match outcome {
        Ok(n) => n,
        Err(_) => old,
    }
}

/// What an operation with the given outcome returns.
pub open spec fn returned(outcome: Result<i64, CounterError>) -> Result<(), CounterError> {
    match outcome {
        Ok(_) => Ok(()),
        Err(e) => Err(e),
    }
}

impl Counter {
    /// Create a new `Counter` starting at `initial`.
    pub fn new(initial: i64) -> (c: Counter)
        ensures
            c@ == initial,
    {
        Counter { value: initial }
    }

    /// Returns the current counter value.
    pub fn value(&self) -> (v: i64)
        ensures
            v == self@,
    {
        self.value
    }

    /// Increments the counter by 1.
    ///
    /// Returns [`CounterError::Overflow`] if the counter is already at `i64::MAX`,
    /// and then leaves it unchanged.
    pub fn increment(&mut self) -> (r: Result<(), CounterError>)
        ensures
            r == returned(spec_increment(old(self)@)),
            final(self)@ == value_after(old(self)@, spec_increment(old(self)@)),
    {
        match self.value.checked_add(1) {
            Some(n) => {
                self.value = n;
                Ok(())
            },
            None => Err(CounterError::Overflow),
        }
    }

    /// Decrements the counter by 1.
    ///
    /// Returns [`CounterError::Underflow`] if the counter is already at `i64::MIN`,
    /// and then leaves it unchanged.
    pub fn decrement(&mut self) -> (r: Result<(), CounterError>)
        ensures
            r == returned(spec_decrement(old(self)@)),
            final(self)@ == value_after(old(self)@, spec_decrement(old(self)@)),
    {
        match self.value.checked_sub(1) {
            Some(n) => {
                self.value = n;
                Ok(())
            },
            None => Err(CounterError::Underflow),
        }
    }

    /// Resets the counter to zero.
    pub fn reset(&mut self)
        ensures
            final(self)@ == 0,
    {
        self.value = 0;
    }

    /// Adds `delta` to the counter.
    ///
    /// Returns [`CounterError::Overflow`] or [`CounterError::Underflow`] on
    /// integer boundary violations, and then leaves the counter unchanged.
    pub fn add(&mut self, delta: i64) -> (r: Result<(), CounterError>)
        ensures
            r == returned(spec_add(old(self)@, delta)),
            final(self)@ == value_after(old(self)@, spec_add(old(self)@, delta)),
    {
        match self.value.checked_add(delta) {
            Some(n) => {
                self.value = n;
                Ok(())
            },
            None => {
                if delta > 0 {
                    Err(CounterError::Overflow)
                } else {
                    Err(CounterError::Underflow)
                }
            },
        }
    }
}

/// Incrementing and then decrementing a counter gives back the value it held,
/// whenever the increment succeeds.
pub proof fn law_increment_then_decrement(v: i64)
    requires
        spec_increment(v) is Ok,
    ensures
        spec_decrement(value_after(v, spec_increment(v))) == Ok::<i64, CounterError>(v),
{
}

/// Decrementing and then incrementing a counter gives back the value it held,
/// whenever the decrement succeeds.
pub proof fn law_decrement_then_increment(v: i64)
    requires
        spec_decrement(v) is Ok,
    ensures
        spec_increment(value_after(v, spec_decrement(v))) == Ok::<i64, CounterError>(v),
{
}

/// Adding `delta` and then its negation gives back the value the counter held,
/// whenever the first addition succeeds.
pub proof fn law_add_then_subtract(v: i64, delta: i64)
    requires
        spec_add(v, delta) is Ok,
        delta > i64::MIN,
    ensures
        spec_add(value_after(v, spec_add(v, delta)), (-delta) as i64) == Ok::<i64, CounterError>(v),
{
}

/// Incrementing is adding one, and decrementing is adding minus one, in
/// outcome and in the value left behind.
pub proof fn law_increment_is_add_one(v: i64)
    ensures
        spec_increment(v) == spec_add(v, 1i64),
        spec_decrement(v) == spec_add(v, -1i64),
{
}

/// An operation that fails leaves the counter's value unchanged.
pub proof fn law_failure_leaves_value(v: i64, delta: i64)
    ensures
        spec_add(v, delta) is Err ==> value_after(v, spec_add(v, delta)) == v,
        spec_increment(v) is Err ==> value_after(v, spec_increment(v)) == v,
        spec_decrement(v) is Err ==> value_after(v, spec_decrement(v)) == v,
{
}

/// Adding zero always succeeds and leaves the value unchanged.
pub proof fn law_add_zero(v: i64)
    ensures
        spec_add(v, 0i64) == Ok::<i64, CounterError>(v),
{
}

} // verus!
