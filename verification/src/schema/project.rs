//! Core project metadata: name, dates and backlog completeness.

use vstd::prelude::*;
use crate::calendar::Date;

verus! {

/// Core project metadata.
#[derive(Debug, Clone)]
pub struct Project {
    /// Human-readable project name.
    pub name: String,
    /// Project start date.
    pub start_date: Date,
    /// Project target end date.
    pub end_date: Date,
    /// Estimated fraction of all work that is ticketed (0.0 to 1.0), carried
    /// as the bit pattern of an IEEE-754 binary64 value; the library does not
    /// compute with it.
    pub backlog_completeness_bits: u64,
}

/// Bit pattern of 1.0, the default backlog completeness.
pub const DEFAULT_BACKLOG_COMPLETENESS_BITS: u64 = 0x3FF0_0000_0000_0000;

impl Project {
    /// Days from the start date to the end date.
    pub fn duration_days(&self) -> (r: i64)
        ensures
            r == self.end_date.day - self.start_date.day,
    {
        self.end_date.days_since(self.start_date)
    }

    /// Days from the start date to `as_of` (negative before the start).
    pub fn days_elapsed(&self, as_of: Date) -> (r: i64)
        ensures
            r == as_of.day - self.start_date.day,
    {
        as_of.days_since(self.start_date)
    }

    /// Days from `as_of` to the end date (negative after the end).
    pub fn days_remaining(&self, as_of: Date) -> (r: i64)
        ensures
            r == self.end_date.day - as_of.day,
    {
        self.end_date.days_since(as_of)
    }
}

/// Days elapsed and days remaining add up to the project's duration, on every date.
pub proof fn lemma_elapsed_plus_remaining(p: Project, as_of: Date)
    ensures
        (as_of.day - p.start_date.day) + (p.end_date.day - as_of.day) == p.end_date.day
            - p.start_date.day,
{
}

} // verus!
