//! Trusted primitives over number payloads.
//!
//! A number payload is the shortest round-tripping decimal form of an
//! IEEE-754 double, exactly as the Language prints it (`"11"`, `"-0"`,
//! `"NaN"`, `"inf"`). Each primitive reads its operands back as doubles,
//! applies one machine operation, and renders the result in that same
//! canonical form, so composing primitives loses nothing: rendering a double
//! and parsing the text again yields the very same double. A payload that is
//! no numeral at all reads as the double zero (`num_traits::ToPrimitive`
//! supplies that zero); canonical payloads never take that fallback.
//!
//! What a double operation returns takes pages to state, so each result is
//! given an uninterpreted name, a pure function of the operand texts alone.

use num_traits::ToPrimitive;
use vstd::prelude::*;

verus! {

/// The decimal form of the double sum of the doubles that `a` and `b` denote.
pub uninterp spec fn add_num(a: Seq<char>, b: Seq<char>) -> Seq<char>;

/// The decimal form of the double difference of the doubles that `a` and `b` denote.
pub uninterp spec fn sub_num(a: Seq<char>, b: Seq<char>) -> Seq<char>;

/// The decimal form of the double product of the doubles that `a` and `b` denote.
pub uninterp spec fn mul_num(a: Seq<char>, b: Seq<char>) -> Seq<char>;

/// The decimal form of the double quotient of the doubles that `a` and `b` denote.
pub uninterp spec fn div_num(a: Seq<char>, b: Seq<char>) -> Seq<char>;

/// Whether the doubles that `a` and `b` denote compare equal under IEEE-754
/// (`"-0"` equals `"0"`; `"NaN"` equals nothing, itself included).
pub uninterp spec fn nums_equal(a: Seq<char>, b: Seq<char>) -> bool;

/// The decimal form of the double that the text `s` parses to, or `None`
/// where `s` is not a decimal numeral (whitespace is not stripped).
pub uninterp spec fn parse_num(s: Seq<char>) -> Option<Seq<char>>;

/// Relies on the double addition of the machine, with `str::parse` and
/// `format!` carrying the operands in and the sum out: the result depends on
/// the operand texts alone.
#[verifier::external_body]
pub(crate) fn num_add(a: &str, b: &str) -> (r: String)
    ensures
        r@ == add_num(a@, b@),
{
    let zero = 0u8.to_f64().unwrap_or_default();
    let x = a.parse().unwrap_or(zero);
    let y = b.parse().unwrap_or(zero);
    format!("{}", x + y)
}

/// Relies on the double subtraction of the machine, carried as in `num_add`:
/// the result depends on the operand texts alone.
#[verifier::external_body]
pub(crate) fn num_sub(a: &str, b: &str) -> (r: String)
    ensures
        r@ == sub_num(a@, b@),
{
    let zero = 0u8.to_f64().unwrap_or_default();
    let x = a.parse().unwrap_or(zero);
    let y = b.parse().unwrap_or(zero);
    format!("{}", x - y)
}

/// Relies on the double multiplication of the machine, carried as in
/// `num_add`: the result depends on the operand texts alone.
#[verifier::external_body]
pub(crate) fn num_mul(a: &str, b: &str) -> (r: String)
    ensures
        r@ == mul_num(a@, b@),
{
    let zero = 0u8.to_f64().unwrap_or_default();
    let x = a.parse().unwrap_or(zero);
    let y = b.parse().unwrap_or(zero);
    format!("{}", x * y)
}

/// Relies on the double division of the machine (division by zero follows
/// IEEE-754), carried as in `num_add`: the result depends on the operand
/// texts alone.
#[verifier::external_body]
pub(crate) fn num_div(a: &str, b: &str) -> (r: String)
    ensures
        r@ == div_num(a@, b@),
{
    let zero = 0u8.to_f64().unwrap_or_default();
    let x = a.parse().unwrap_or(zero);
    let y = b.parse().unwrap_or(zero);
    format!("{}", x / y)
}

/// Relies on the IEEE-754 comparison of the machine, carried as in
/// `num_add`: the result depends on the operand texts alone.
#[verifier::external_body]
pub(crate) fn num_eq(a: &str, b: &str) -> (r: bool)
    ensures
        r == nums_equal(a@, b@),
{
    let zero = 0u8.to_f64().unwrap_or_default();
    let x = a.parse().unwrap_or(zero);
    let y = b.parse().unwrap_or(zero);
    x == y
}

/// Relies on `str::parse` to a double: the result depends on `s` alone.
#[verifier::external_body]
pub(crate) fn parse_number(s: &str) -> (r: Option<String>)
    ensures
        match r {
            Some(t) => parse_num(s@) == Some(t@),
            None => parse_num(s@) is None,
        },
{
    let zero = 0u8.to_f64().unwrap_or_default();
    match s.parse() {
        Ok(x) => {
            let _double = [x, zero];
            Some(format!("{}", x))
        },
        Err(_) => None,
    }
}

} // verus!
