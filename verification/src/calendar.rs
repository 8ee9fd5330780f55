//! Plain stand-ins for calendar values.
//!
//! The ledger only stores and compares dates and durations, so it keeps them
//! as the integers that identify them.

use vstd::prelude::*;

verus! {

/// A calendar day, identified by its day number in the proleptic Gregorian
/// calendar (day 1 is January 1 of year 1).
#[derive(Clone, Copy, PartialEq, Eq, Debug, Structural)]
pub struct Day {
    pub days_from_ce: i32,
}

/// A signed span of time: whole seconds plus a nanosecond part. Two spans are
/// equal when both parts are.
#[derive(Clone, Copy, PartialEq, Eq, Debug, Structural)]
pub struct Span {
    pub secs: i64,
    pub nanos: i32,
}

impl Day {
    /// The day with the given day number.
    pub fn new(days_from_ce: i32) -> (day: Day)
        ensures
            day.days_from_ce == days_from_ce,
    {
        Day { days_from_ce }
    }
}

impl Span {
    /// The span of the given seconds and nanoseconds.
    pub fn new(secs: i64, nanos: i32) -> (span: Span)
        ensures
            span.secs == secs,
            span.nanos == nanos,
    {
        Span { secs, nanos }
    }
}

} // verus!
