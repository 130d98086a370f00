//! Calendar dates, used only to order transfers chronologically.

use vstd::prelude::*;
use core::cmp::Ordering;

use crate::order::{chain_ord, cmp_int};

verus! {

/// A calendar date. The engine never does calendar arithmetic; dates are
/// compared year first, then month, then day.
#[derive(Clone, Copy, PartialEq, Eq, Structural, Debug)]
pub struct Date {
    pub year: i32,
    pub month: u8,
    pub day: u8,
}

/// Month and day lie in their calendar ranges.
pub open spec fn date_valid(d: Date) -> bool {
    1 <= d.month <= 12 && 1 <= d.day <= 31
}

/// Chronological three-way comparison.
pub open spec fn cmp_date(a: Date, b: Date) -> Ordering {
    chain_ord(
        cmp_int(a.year as int, b.year as int),
        chain_ord(cmp_int(a.month as int, b.month as int), cmp_int(a.day as int, b.day as int)),
    )
}

impl Date {
    /// A date from its calendar parts.
    pub fn new(year: i32, month: u8, day: u8) -> (d: Date)
        requires
            1 <= month <= 12,
            1 <= day <= 31,
        ensures
            d == (Date { year, month, day }),
            date_valid(d),
    {
        Date { year, month, day }
    }

    /// Chronological comparison.
    pub fn compare(&self, other: &Date) -> (o: Ordering)
        ensures
            o == cmp_date(*self, *other),
    {
        if self.year < other.year {
            Ordering::Less
        } else if other.year < self.year {
            Ordering::Greater
        } else if self.month < other.month {
            Ordering::Less
        } else if other.month < self.month {
            Ordering::Greater
        } else if self.day < other.day {
            Ordering::Less
        } else if other.day < self.day {
            Ordering::Greater
        } else {
            Ordering::Equal
        }
    }
}

} // verus!
