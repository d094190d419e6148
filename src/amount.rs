//! Token amounts: parsing a decimal literal into an amount and writing an
//! amount back in decimal, both through cosmwasm's `Uint128`.
use cosmwasm_std::{StdError, Uint128};
use std::str::FromStr;
use vstd::prelude::*;

verus! {

/// cosmwasm's error type, carried through as an opaque value.
#[verifier::external_type_specification]
#[verifier::external_body]
pub struct ExStdError(StdError);

pub open spec fn is_digit(c: char) -> bool {
    '0' <= c && c <= '9'
}

pub open spec fn digit_value(c: char) -> nat {
    (c as nat - '0' as nat) as nat
}

/// The number that a string of decimal digits writes.
pub open spec fn digits_value(s: Seq<char>) -> nat
    decreases s.len(),
{
    if s.len() == 0 {
        0
    } else {
        digits_value(s.drop_last()) * 10 + digit_value(s.last())
    }
}

/// The digits of a literal, after an optional leading `+`.
pub open spec fn literal_digits(s: Seq<char>) -> Seq<char> {
    if s.len() > 0 && s[0] == '+' {
        s.drop_first()
    } else {
        s
    }
}

/// A decimal literal of an amount: an optional `+`, then at least one
/// digit, and nothing else, for a value that fits in 128 bits.
pub open spec fn is_amount_literal(s: Seq<char>) -> bool {
    let d = literal_digits(s);
    &&& d.len() > 0
    &&& forall|i: int| 0 <= i < d.len() ==> is_digit(#[trigger] d[i])
    &&& digits_value(d) <= u128::MAX
}

pub open spec fn amount_literal_value(s: Seq<char>) -> nat {
    digits_value(literal_digits(s))
}

pub open spec fn digit_char(d: nat) -> char {
    if d == 0 {
        '0'
    } else if d == 1 {
        '1'
    } else if d == 2 {
        '2'
    } else if d == 3 {
        '3'
    } else if d == 4 {
        '4'
    } else if d == 5 {
        '5'
    } else if d == 6 {
        '6'
    } else if d == 7 {
        '7'
    } else if d == 8 {
        '8'
    } else {
        '9'
    }
}

/// The decimal writing of `n`, without leading zeros.
pub open spec fn decimal(n: nat) -> Seq<char>
    decreases n,
{
    if n < 10 {
        seq![digit_char(n)]
    } else {
        decimal(n / 10).push(digit_char(n % 10))
    }
}

/// Relies on `<cosmwasm_std::Uint128 as FromStr>::from_str`, which parses
/// with `u128::from_str`: an optional `+` and then decimal digits only,
/// for a value in range; anything else is an error.
#[verifier::external_body]
fn uint128_from_str(s: &str) -> (r: Result<u128, StdError>)
    ensures
        r is Ok <==> is_amount_literal(s@),
        r is Ok ==> r->Ok_0 == amount_literal_value(s@),
{
    match Uint128::from_str(s) {
        Ok(v) => Ok(v.u128()),
        Err(e) => Err(e),
    }
}

/// Relies on the `Display` of `cosmwasm_std::Uint128`, which writes the
/// inner `u128` in decimal.
#[verifier::external_body]
fn uint128_to_string(n: u128) -> (r: String)
    ensures
        r@ == decimal(n as nat),
{
    Uint128::new(n).to_string()
}

/// Parses an amount written in decimal; `None` when the text is no amount.
pub fn parse_amount(s: &str) -> (r: Option<u128>)
    ensures
        r is Some <==> is_amount_literal(s@),
        r is Some ==> r->Some_0 == amount_literal_value(s@),
{
    match uint128_from_str(s) {
        Ok(v) => Some(v),
        Err(_) => None,
    }
}

/// Writes an amount (or any other count) in decimal.
pub fn amount_to_string(n: u128) -> (r: String)
    ensures
        r@ == decimal(n as nat),
{
    uint128_to_string(n)
}

} // verus!
