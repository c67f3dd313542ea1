//! The calls into `num_bigint` that turn big-endian bytes and decimal text into
//! big unsigned integers and back. Each item here is trusted: its contract is
//! read off the crate's source, not proved.

use crate::numeric::{be_bytes, be_value, decimal_digits, decimal_literal_body, decimal_literal_value, is_decimal_literal};
use crate::snapshot::SnapshotHashParseError;
use num_bigint::BigUint;
use vstd::prelude::*;

verus! {

/// `num_bigint::BigUint`, an arbitrary-precision unsigned integer.
#[verifier::external_type_specification]
#[verifier::external_body]
pub struct ExBigUint(BigUint);

/// The number that a `BigUint` holds.
pub uninterp spec fn biguint_value(value: BigUint) -> nat;

/// `BigUint::from_bytes_be`. Claimed: the result holds the big-endian value of
/// `bytes` (zero for an empty slice).
#[verifier::external_body]
pub(crate) fn biguint_from_be_bytes(bytes: &[u8]) -> (res: BigUint)
    ensures
        biguint_value(res) == be_value(bytes@),
{
    BigUint::from_bytes_be(bytes)
}

/// `ToString::to_string` on a `BigUint`, that is its `Display`, which writes
/// `to_str_radix(10)`. Claimed: the decimal text of the number, without
/// leading zeros, "0" for zero.
#[verifier::external_body]
pub(crate) fn biguint_to_decimal(value: &BigUint) -> (res: String)
    ensures
        res@ == decimal_digits(biguint_value(*value)),
{
    value.to_string()
}

/// `BigUint::to_bytes_be`. Claimed: the shortest big-endian encoding of the
/// number, `[0]` for zero.
#[verifier::external_body]
pub(crate) fn biguint_to_be_bytes(value: &BigUint) -> (res: Vec<u8>)
    ensures
        res@ == be_bytes(biguint_value(*value)),
{
    value.to_bytes_be()
}

/// `BigUint`'s `FromStr`, that is `from_str_radix(text, 10)`. Claimed, from
/// that source: it succeeds exactly on decimal literals (one optional leading
/// '+' not followed by another, then a non-empty run of ASCII digits and '_'
/// that starts with a digit) and then holds the literal's value. Its error is
/// `ParseBigIntError::empty()` exactly when nothing is left after the '+',
/// else `ParseBigIntError::invalid()`; the two are told apart by their
/// `Display` text and converted to the library's error.
#[verifier::external_body]
pub(crate) fn parse_biguint(text: &str) -> (res: Result<BigUint, SnapshotHashParseError>)
    ensures
        res is Ok <==> is_decimal_literal(text@),
        res matches Ok(value) ==> biguint_value(value) == decimal_literal_value(text@),
        res matches Err(e) ==> (e == SnapshotHashParseError::Empty <==> decimal_literal_body(
            text@,
        ).len() == 0),
{
    match text.parse::<BigUint>() {
        Ok(value) => Ok(value),
        Err(e) if e.to_string() == "cannot parse integer from empty string" => Err(
            SnapshotHashParseError::Empty,
        ),
        Err(_) => Err(SnapshotHashParseError::InvalidDigit),
    }
}

} // verus!
