//! Arbitrary-precision decimals of the `bigdecimal` crate, the type in which
//! a numeric parameter reaches the database.

use crate::scalar::{decimal_value, is_canonical_decimal};
use bigdecimal::{BigDecimal, ParseBigDecimalError};
use std::str::FromStr;
use vstd::prelude::*;

verus! {

/// `bigdecimal::BigDecimal`, a decimal number of arbitrary precision.
#[verifier::external_type_specification]
#[verifier::external_body]
pub struct ExBigDecimal(BigDecimal);

/// `bigdecimal::ParseBigDecimalError`, the reason why a text is no decimal.
#[verifier::external_type_specification]
#[verifier::external_body]
pub struct ExParseBigDecimalError(ParseBigDecimalError);

/// What a `BigDecimal` is made of, as `as_bigint_and_exponent` of that crate
/// hands it out: an integer and a scale, which stand for the number
/// `integer / 10^scale`.
pub uninterp spec fn decimal_parts(decimal: BigDecimal) -> (int, int);

/// `BigDecimal::from_str`, which reads a decimal number from text.
///
/// Only its behaviour on integers is stated: given the canonical decimal
/// spelling of an integer, it succeeds, and the decimal it returns holds
/// that integer with scale 0. (The text then has no exponent and no point,
/// so the crate hands all of it to the integer parser of `num-bigint` and
/// sets the scale to 0.) Of any other text nothing is claimed.
#[verifier::external_body]
pub(crate) fn parse_decimal(text: &str) -> (parsed: Result<BigDecimal, ParseBigDecimalError>)
    ensures
        is_canonical_decimal(text@) ==> parsed is Ok,
        is_canonical_decimal(text@) ==> (parsed matches Ok(decimal) ==> decimal_parts(decimal).0
            == decimal_value(text@) && decimal_parts(decimal).1 == 0),
{
    BigDecimal::from_str(text)
}

/// `BigDecimal::clone`, which the crate derives: the copy is made of the
/// same integer and the same scale.
pub assume_specification[ <BigDecimal as Clone>::clone ](decimal: &BigDecimal) -> (copy: BigDecimal)
    ensures
        decimal_parts(copy) == decimal_parts(*decimal),
;

} // verus!
