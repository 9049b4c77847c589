//! Exact fixed-point amounts with four decimal places.
use vstd::prelude::*;

verus! {

/// Number of decimal places carried by every balance and transaction amount.
pub const DECIMAL_PLACES: u32 = 4;

/// Largest magnitude, in ten-thousandths, that an amount may hold: the
/// largest 96-bit mantissa of a decimal number at four decimal places.
pub const MAX_UNITS: i128 = 79228162514264337593543950335;

/// Whether `v` ten-thousandths can be held by an [`Amount`].
pub open spec fn in_range(v: int) -> bool {
    -MAX_UNITS <= v <= MAX_UNITS
}

/// A signed decimal amount with exactly four decimal places, stored as a
/// count of ten-thousandths. Its magnitude never exceeds [`MAX_UNITS`].
#[derive(Clone, Copy, Debug, PartialEq, Eq, Structural)]
pub struct Amount {
    units: i128,
}

impl View for Amount {
    type V = int;

    /// The amount as an exact number of ten-thousandths.
    closed spec fn view(&self) -> int {
        self.units as int
    }
}

impl Amount {
    #[verifier::type_invariant]
    spec fn inv(self) -> bool {
        in_range(self.units as int)
    }

    /// The amount holding exactly `units` ten-thousandths, if that is in range.
    pub fn from_units(units: i128) -> (r: Option<Amount>)
        ensures
            r is Some <==> in_range(units as int),
            r matches Some(a) ==> a@ == units,
    {
        if -MAX_UNITS <= units && units <= MAX_UNITS {
            Some(Amount { units })
        } else {
            None
        }
    }

    /// Zero.
    pub fn zero() -> (r: Amount)
        ensures
            r@ == 0,
    {
        Amount { units: 0 }
    }

    /// The amount as a count of ten-thousandths.
    pub fn units(&self) -> (r: i128)
        ensures
            r == self@,
            in_range(r as int),
    {
        proof {
            use_type_invariant(self);
        }
        self.units
    }

    /// Whether the amount is below zero.
    pub fn is_negative(&self) -> (r: bool)
        ensures
            r == (self@ < 0),
    {
        self.units < 0
    }

    /// The amount with its sign flipped.
    pub fn negate(&self) -> (r: Amount)
        ensures
            r@ == -self@,
    {
        proof {
            use_type_invariant(self);
        }
        Amount { units: -self.units }
    }

    /// Exact sum, or `None` when it falls out of range.
    pub fn checked_add(&self, other: &Amount) -> (r: Option<Amount>)
        ensures
            r is Some <==> in_range(self@ + other@),
            r matches Some(a) ==> a@ == self@ + other@,
    {
        Amount::from_units(self.units() + other.units())
    }

    /// Exact difference, or `None` when it falls out of range.
    pub fn checked_sub(&self, other: &Amount) -> (r: Option<Amount>)
        ensures
            r is Some <==> in_range(self@ - other@),
            r matches Some(a) ==> a@ == self@ - other@,
    {
        Amount::from_units(self.units() - other.units())
    }
}

} // verus!
