//! Reading a decimal number of the `rust_decimal` crate as a mantissa and a
//! scale.
use rust_decimal::Decimal;
use vstd::prelude::*;

use crate::amount::MAX_UNITS;
use crate::row::RawAmount;

verus! {

#[verifier::external_type_specification]
#[verifier::external_body]
pub struct ExDecimal(Decimal);

/// Relies on `Decimal::mantissa`: the signed value of the 96-bit integer
/// that the number is stored as.
#[verifier::external_body]
fn decimal_mantissa(d: &Decimal) -> (r: i128)
    ensures
        -MAX_UNITS <= r <= MAX_UNITS,
{
    d.mantissa()
}

/// Relies on `Decimal::scale`: the power of ten the mantissa is divided by,
/// which the type keeps between 0 and 28.
#[verifier::external_body]
fn decimal_scale(d: &Decimal) -> (r: u32)
    ensures
        r <= 28,
{
    d.scale()
}

impl RawAmount {
    /// The mantissa and scale of `d`, so that `d == mantissa * 10^-scale`.
    pub fn from_decimal(d: &Decimal) -> (r: RawAmount)
        ensures
            -MAX_UNITS <= r.mantissa <= MAX_UNITS,
            r.scale <= 28,
    {
        RawAmount { mantissa: decimal_mantissa(d), scale: decimal_scale(d) }
    }
}

} // verus!
