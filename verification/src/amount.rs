//! Exact signed decimal amounts, held as an integer count of minor units.

use vstd::prelude::*;
use core::cmp::Ordering;

use crate::order::cmp_int;

verus! {

/// Minor units per whole unit of currency: an amount is an integer multiple
/// of one billionth of a unit, so every sum and comparison is exact.
pub const UNIT: i128 = 1_000_000_000;

/// Largest magnitude a single ledger amount may have (one billion whole
/// units). Keeping individual amounts within this bound guarantees that
/// every total the engine computes fits in `i128`.
pub const AMOUNT_LIMIT: i128 = 1_000_000_000_000_000_000;

/// A signed exact-decimal amount of money.
#[derive(Clone, Copy, PartialEq, Eq, Structural, Debug)]
pub struct Amount {
    pub units: i128,
}

impl View for Amount {
    type V = int;

    open spec fn view(&self) -> int {
        self.units as int
    }
}

impl DeepView for Amount {
    type V = int;

    open spec fn deep_view(&self) -> int {
        self.view()
    }
}

impl Amount {
    /// The zero amount.
    pub fn zero() -> (r: Amount)
        ensures
            r@ == 0,
    {
        Amount { units: 0 }
    }

    /// An amount given directly in minor units.
    pub fn from_units(units: i128) -> (r: Amount)
        ensures
            r@ == units,
    {
        Amount { units }
    }

    /// An amount of `n` whole units of currency.
    pub fn from_whole(n: i64) -> (r: Amount)
        ensures
            r@ == n * UNIT,
    {
        Amount { units: (n as i128) * UNIT }
    }

    /// Exact addition; the caller guarantees the sum is representable.
    pub fn plus(self, other: Amount) -> (r: Amount)
        requires
            i128::MIN <= self@ + other@ <= i128::MAX,
        ensures
            r@ == self@ + other@,
    {
        Amount { units: self.units + other.units }
    }

    /// Whether this amount is exactly zero.
    pub fn is_zero(&self) -> (b: bool)
        ensures
            b == (self@ == 0),
    {
        self.units == 0
    }

    /// Value comparison.
    pub fn compare(&self, other: &Amount) -> (o: Ordering)
        ensures
            o == cmp_int(self@, other@),
    {
        if self.units < other.units {
            Ordering::Less
        } else if self.units == other.units {
            Ordering::Equal
        } else {
            Ordering::Greater
        }
    }
}

} // verus!
