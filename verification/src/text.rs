//! Decimal notation, and the string operations this library takes from
//! `std` and from `num_bigint`.
//!
//! The functions of this file are not proved: each states what the call it
//! makes returns.

use crate::integer::int_of;
use num_bigint::BigInt;
use vstd::prelude::*;

verus! {

/// The character of a decimal digit.
pub open spec fn digit_char(d: nat) -> char {
    if d == 0 {
        '0'
    } else if d == 1 {
        '1'
    } else if d == 2 {
        '2'
    } else if d == 3 {
        '3'
    } else if d == 4 {
        '4'
    } else if d == 5 {
        '5'
    } else if d == 6 {
        '6'
    } else if d == 7 {
        '7'
    } else if d == 8 {
        '8'
    } else {
        '9'
    }
}

/// The decimal digits of a natural number, most significant first, without
/// leading zeros; the single digit 0 for zero.
pub open spec fn decimal_digits(n: nat) -> Seq<char>
    decreases n,
{
    if n < 10 {
        seq![digit_char(n)]
    } else {
        decimal_digits(n / 10).push(digit_char(n % 10))
    }
}

/// An integer in decimal notation: a minus sign before the digits of a
/// negative number, nothing before the others.
pub open spec fn decimal(i: int) -> Seq<char> {
    if i < 0 {
        seq!['-'] + decimal_digits((-i) as nat)
    } else {
        decimal_digits(i as nat)
    }
}

/// An integer in decimal notation with its sign always written: a plus
/// sign before zero and the positive numbers.
pub open spec fn signed_decimal(i: int) -> Seq<char> {
    if i < 0 {
        decimal(i)
    } else {
        seq!['+'] + decimal(i)
    }
}

/// `String::push_str`: `tail` is added at the end of `text`.
#[verifier::external_body]
pub(crate) fn append(text: &mut String, tail: &str)
    ensures
        final(text)@ == old(text)@ + tail@,
{
    text.push_str(tail)
}

/// `u64::to_string`: the number in decimal digits.
#[verifier::external_body]
pub(crate) fn decimal_of_u64(n: u64) -> (text: String)
    ensures
        text@ == decimal_digits(n as nat),
{
    n.to_string()
}

/// `BigInt::to_string`, that is its `Display` with no flag: the value in
/// decimal notation.
#[verifier::external_body]
pub(crate) fn decimal_of_integer(x: &BigInt) -> (text: String)
    ensures
        text@ == decimal(int_of(*x)),
{
    x.to_string()
}

/// The `Display` of `BigInt` with the flag `+`: the value in decimal
/// notation with its sign always written.
#[verifier::external_body]
pub(crate) fn signed_decimal_of_integer(x: &BigInt) -> (text: String)
    ensures
        text@ == signed_decimal(int_of(*x)),
{
    format!("{:+}", x)
}

} // verus!
