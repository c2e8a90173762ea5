//! Reading typed text: what `std` and `num_bigint` make of a line.
//!
//! The functions of this file are not proved. What a line is trimmed or
//! lowered to, and which number it is parsed to, is decided by the library
//! that is called; each result has a name here, so that the contracts of
//! the session can say which text led where.

use crate::integer::int_of;
use num_bigint::BigInt;
use vstd::prelude::*;

verus! {

/// `num_bigint::ParseBigIntError`: why a text is not a big integer.
#[verifier::external_type_specification]
#[verifier::external_body]
pub struct ExParseBigIntError(num_bigint::ParseBigIntError);

/// `core::num::ParseIntError`: why a text is not a machine integer.
#[verifier::external_type_specification]
#[verifier::external_body]
pub struct ExParseIntError(core::num::ParseIntError);

/// What `str::trim` leaves of a text.
pub uninterp spec fn trimmed(text: Seq<char>) -> Seq<char>;

/// What `str::to_lowercase` makes of a text.
pub uninterp spec fn lowercase(text: Seq<char>) -> Seq<char>;

/// The integer that `BigInt::from_str` reads in a text, if it reads one.
pub uninterp spec fn parsed_integer(text: Seq<char>) -> Option<int>;

/// The number that `u32::from_str` reads in a text, if it reads one.
pub uninterp spec fn parsed_u32(text: Seq<char>) -> Option<u32>;

/// `str::trim`: the text without the white space at its two ends.
#[verifier::external_body]
pub(crate) fn trim(text: &str) -> (rest: &str)
    ensures
        rest@ == trimmed(text@),
{
    text.trim()
}

/// `str::to_lowercase`: the text in lower case.
#[verifier::external_body]
pub(crate) fn to_lowercase(text: &str) -> (lowered: String)
    ensures
        lowered@ == lowercase(text@),
{
    text.to_lowercase()
}

/// `<BigInt as FromStr>::from_str`: the big integer written in the text in
/// decimal notation, or the reason why there is none.
#[verifier::external_body]
pub(crate) fn parse_integer(text: &str) -> (r: Result<BigInt, num_bigint::ParseBigIntError>)
    ensures
        parsed_integer(text@) == match r {
            Ok(value) => Some(int_of(value)),
            Err(_) => None,
        },
{
    text.parse::<BigInt>()
}

/// `<u32 as FromStr>::from_str`: the number written in the text in decimal
/// notation, or the reason why there is none.
#[verifier::external_body]
pub(crate) fn parse_u32(text: &str) -> (r: Result<u32, core::num::ParseIntError>)
    ensures
        parsed_u32(text@) == match r {
            Ok(value) => Some(value),
            Err(_) => None,
        },
{
    text.parse::<u32>()
}

} // verus!
