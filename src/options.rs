//! The menu of the interactive front end.
use vstd::prelude::*;

verus! {

pub open spec fn is_digit(c: char) -> bool {
    '0' <= c && c <= '9'
}

/// The value of a run of decimal digits.
pub open spec fn digits_value(s: Seq<char>) -> int
    decreases s.len(),
{
    if s.len() == 0 {
        0
    } else {
        digits_value(s.drop_last()) * 10 + (s.last() as int - '0' as int)
    }
}

/// The digits of a decimal number: an optional `+`, then one or more digits.
pub open spec fn unsigned_digits(s: Seq<char>) -> Option<Seq<char>> {
    let d = if s.len() > 0 && s[0] == '+' {
        s.skip(1)
    } else {
        s
    };
    if d.len() > 0 && forall|i: int| 0 <= i < d.len() ==> is_digit(#[trigger] d[i]) {
        Some(d)
    } else {
        None
    }
}

/// The `u8` that `s` writes in decimal, if any.
pub open spec fn parsed_u8(s: Seq<char>) -> Option<u8> {
    match unsigned_digits(s) {
        Some(d) => if digits_value(d) <= 255 {
            Some(digits_value(d) as u8)
        } else {
            None
        },
        None => None,
    }
}

/// Relies on `str::parse::<u8>`: an optional `+` and one or more decimal
/// digits whose value fits in a `u8`; anything else is an error.
#[verifier::external_body]
fn parse_u8(s: &str) -> (r: Option<u8>)
    ensures
        r == parsed_u8(s@),
{
    s.parse::<u8>().ok()
}

/// The menu entries of the interactive front end.
pub struct Options;

impl Options {
    /// The option number that `input` names, if it is a decimal `u8`.
    pub fn parse(input: &str) -> (r: Option<u8>)
        ensures
            r == parsed_u8(input@),
    {
        parse_u8(input)
    }
}

} // verus!
