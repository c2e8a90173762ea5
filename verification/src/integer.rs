//! The boundary with `num_bigint`: the big-integer type, the mathematical
//! integer it stands for, and the arithmetic this library takes from it.
//!
//! Nothing in this file is proved. Each function states what the operation
//! of `num_bigint` it calls computes; the rest of the library is verified
//! against these statements.

use num_bigint::BigInt;
use vstd::arithmetic::power::pow;
use vstd::prelude::*;

verus! {

/// `num_bigint::BigInt`, a signed integer of arbitrary size, carried as an
/// opaque value.
#[verifier::external_type_specification]
#[verifier::external_body]
pub struct ExBigInt(num_bigint::BigInt);

/// The mathematical integer that a `BigInt` holds.
pub uninterp spec fn int_of(x: BigInt) -> int;

/// The quotient of `x` by `y` rounded towards zero.
pub open spec fn truncated_quotient(x: int, y: int) -> int {
    let magnitude = (if x < 0 { -x } else { x }) / (if y < 0 { -y } else { y });
    if (x < 0) == (y < 0) {
        magnitude
    } else {
        -magnitude
    }
}

/// `BigInt::from(u64)`: the big integer that holds `n`.
#[verifier::external_body]
pub(crate) fn integer_from_u64(n: u64) -> (r: BigInt)
    ensures
        int_of(r) == n,
{
    BigInt::from(n)
}

/// `num_traits::Zero::is_zero` on `BigInt`: whether the value is zero.
#[verifier::external_body]
pub(crate) fn is_zero(x: &BigInt) -> (r: bool)
    ensures
        r == (int_of(*x) == 0),
{
    num_traits::Zero::is_zero(x)
}

/// `&BigInt + &BigInt`: the exact sum.
#[verifier::external_body]
pub(crate) fn sum_of(x: &BigInt, y: &BigInt) -> (r: BigInt)
    ensures
        int_of(r) == int_of(*x) + int_of(*y),
{
    x + y
}

/// `&BigInt * &BigInt`: the exact product.
#[verifier::external_body]
pub(crate) fn product_of(x: &BigInt, y: &BigInt) -> (r: BigInt)
    ensures
        int_of(r) == int_of(*x) * int_of(*y),
{
    x * y
}

/// `&BigInt / &BigInt`: the quotient rounded towards zero. The operator
/// panics on a zero divisor, which the precondition leaves out.
#[verifier::external_body]
pub(crate) fn quotient_of(x: &BigInt, y: &BigInt) -> (r: BigInt)
    requires
        int_of(*y) != 0,
    ensures
        int_of(r) == truncated_quotient(int_of(*x), int_of(*y)),
{
    x / y
}

/// `num_traits::Pow::pow` on `&BigInt` with a `u64` exponent: the exact
/// power, with any base to the power zero being one.
#[verifier::external_body]
pub(crate) fn power_of(base: &BigInt, exponent: u64) -> (r: BigInt)
    ensures
        int_of(r) == pow(int_of(*base), exponent as nat),
{
    num_traits::Pow::pow(base, exponent)
}

} // verus!
