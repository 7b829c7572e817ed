//! Color rules: a color literal and the style variable that replaces it.
use vstd::prelude::*;

use crate::parser::{alphanumeric, is_alphanumeric, is_ascii_alphanumeric};
use crate::text::chars_of;

verus! {

/// Whether a character is alphabetic in the Unicode sense.
pub uninterp spec fn alphabetic(c: char) -> bool;

/// An ASCII letter.
pub open spec fn is_ascii_letter(c: char) -> bool {
    ('a' <= c && c <= 'z') || ('A' <= c && c <= 'Z')
}

/// Relies on `char::is_alphabetic`: Unicode's Alphabetic property, which among
/// ASCII characters holds of the letters alone.
#[verifier::external_body]
fn is_alphabetic(c: char) -> (r: bool)
    ensures
        r == alphabetic(c),
        (c as u32) < 128 ==> (r <==> is_ascii_letter(c)),
{
    c.is_alphabetic()
}

/// The lowercase form of a string.
pub uninterp spec fn lowercase(s: Seq<char>) -> Seq<char>;

/// The lowercase form of an ASCII character.
pub open spec fn ascii_lower(c: char) -> char {
    if 'A' <= c && c <= 'Z' {
        ((c as u32) + 32) as char
    } else {
        c
    }
}

/// Relies on `str::to_lowercase`: the result depends on the characters alone;
/// the lowercase mapping of an ASCII character is one ASCII character, the
/// letter's lowercase form or the character itself.
#[verifier::external_body]
fn to_lowercase(s: &str) -> (r: String)
    ensures
        r@ == lowercase(s@),
        (forall|i: int| 0 <= i < s@.len() ==> (#[trigger] s@[i] as u32) < 128) ==> r@
            == s@.map_values(|c: char| ascii_lower(c)),
{
    s.to_lowercase()
}

pub open spec fn is_hex_digit(c: char) -> bool {
    ('0' <= c && c <= '9') || ('a' <= c && c <= 'f') || ('A' <= c && c <= 'F')
}

/// A color literal: `#` and one or more hexadecimal digits, or a non-empty
/// run of alphabetic characters.
pub open spec fn valid_color_literal(s: Seq<char>) -> bool {
    if s.len() > 0 && s[0] == '#' {
        s.len() > 1 && forall|i: int| 1 <= i < s.len() ==> is_hex_digit(#[trigger] s[i])
    } else {
        s.len() > 0 && forall|i: int| 0 <= i < s.len() ==> alphabetic(#[trigger] s[i])
    }
}

/// Every character is ASCII.
pub open spec fn is_ascii_text(s: Seq<char>) -> bool {
    forall|i: int| 0 <= i < s.len() ==> (#[trigger] s[i] as u32) < 128
}

/// `valid_color_literal` on ASCII text: `#` and hexadecimal digits, or ASCII
/// letters.
pub open spec fn ascii_color_literal(s: Seq<char>) -> bool {
    if s.len() > 0 && s[0] == '#' {
        s.len() > 1 && forall|i: int| 1 <= i < s.len() ==> is_hex_digit(#[trigger] s[i])
    } else {
        s.len() > 0 && forall|i: int| 0 <= i < s.len() ==> is_ascii_letter(#[trigger] s[i])
    }
}

/// `valid_var_name` on ASCII text: ASCII letters, digits and `-`.
pub open spec fn ascii_var_name(s: Seq<char>) -> bool {
    s.len() > 0 && forall|i: int|
        0 <= i < s.len() ==> (is_ascii_alphanumeric(#[trigger] s[i]) || s[i] == '-')
}

/// A style variable name: a non-empty run of alphanumeric characters and `-`.
pub open spec fn valid_var_name(s: Seq<char>) -> bool {
    s.len() > 0 && forall|i: int| 0 <= i < s.len() ==> (alphanumeric(#[trigger] s[i]) || s[i] == '-')
}

/// Why a color rule was rejected.
#[derive(Debug, PartialEq, Eq, Structural, Clone, Copy)]
pub enum ColorError {
    /// The source is neither a hexadecimal code nor a color name.
    InvalidColorLiteral,
    /// The replacement is not a style variable name.
    InvalidVariableName,
}

/// Whether the characters `cs`, taken as they are, form a color literal.
pub fn is_valid_color_literal(cs: &Vec<char>) -> (r: bool)
    ensures
        r == valid_color_literal(cs@),
        is_ascii_text(cs@) ==> r == ascii_color_literal(cs@),
{
    if cs.len() == 0 {
        return false;
    }
    if cs[0] == '#' {
        if cs.len() == 1 {
            return false;
        }
        let mut i: usize = 1;
        while i < cs.len()
            invariant
                1 <= i <= cs.len(),
                cs@[0] == '#',
                forall|k: int| 1 <= k < i ==> is_hex_digit(#[trigger] cs@[k]),
            decreases cs.len() - i,
        {
            let c = cs[i];
            if !(('0' <= c && c <= '9') || ('a' <= c && c <= 'f') || ('A' <= c && c <= 'F')) {
                return false;
            }
            i = i + 1;
        }
        true
    } else {
        let mut i: usize = 0;
        while i < cs.len()
            invariant
                i <= cs.len(),
                cs.len() > 0 && cs@[0] != '#',
                forall|k: int| 0 <= k < i ==> alphabetic(#[trigger] cs@[k]),
                forall|k: int|
                    0 <= k < i && (cs@[k] as u32) < 128 ==> is_ascii_letter(#[trigger] cs@[k]),
            decreases cs.len() - i,
        {
            if !is_alphabetic(cs[i]) {
                assert(!alphabetic(cs@[i as int]));
                return false;
            }
            i = i + 1;
        }
        true
    }
}

/// Whether the characters `cs` form a style variable name.
pub fn is_valid_var_name(cs: &Vec<char>) -> (r: bool)
    ensures
        r == valid_var_name(cs@),
        is_ascii_text(cs@) ==> r == ascii_var_name(cs@),
{
    if cs.len() == 0 {
        return false;
    }
    let mut i: usize = 0;
    while i < cs.len()
        invariant
            i <= cs.len(),
            forall|k: int| 0 <= k < i ==> (alphanumeric(#[trigger] cs@[k]) || cs@[k] == '-'),
            forall|k: int|
                0 <= k < i && (cs@[k] as u32) < 128 ==> (is_ascii_alphanumeric(#[trigger] cs@[k])
                    || cs@[k] == '-'),
        decreases cs.len() - i,
    {
        if !(is_alphanumeric(cs[i]) || cs[i] == '-') {
            return false;
        }
        i = i + 1;
    }
    true
}

/// A color literal in lowercase, either `#` and hexadecimal digits or a color
/// name.
#[derive(Debug)]
pub struct CssColor(String);

impl CssColor {
    pub closed spec fn view(&self) -> Seq<char> {
        self.0@
    }

    #[verifier::type_invariant]
    spec fn inv(&self) -> bool {
        valid_color_literal(self.0@)
    }

    /// Lowercases `color` and admits it when it is a color literal.
    pub fn new(color: &str) -> (r: Result<CssColor, ColorError>)
        ensures
            match r {
                Ok(c) => valid_color_literal(lowercase(color@)) && c@ == lowercase(color@),
                Err(e) => !valid_color_literal(lowercase(color@)) && e
                    == ColorError::InvalidColorLiteral,
            },
            is_ascii_text(color@) ==> lowercase(color@) == color@.map_values(
                |c: char| ascii_lower(c),
            ),
            is_ascii_text(lowercase(color@)) ==> (r is Ok <==> ascii_color_literal(
                lowercase(color@),
            )),
    {
        let lowered = to_lowercase(color);
        let cs = chars_of(lowered.as_str());
        if is_valid_color_literal(&cs) {
            Ok(CssColor(lowered))
        } else {
            Err(ColorError::InvalidColorLiteral)
        }
    }

    /// The literal, which is always a valid color literal.
    pub fn as_str(&self) -> (r: &str)
        ensures
            r@ == self@,
            valid_color_literal(r@),
    {
        proof {
            use_type_invariant(self);
        }
        self.0.as_str()
    }

    /// Whether two colors hold the same literal.
    pub fn same_as(&self, other: &CssColor) -> (r: bool)
        ensures
            r == (self@ == other@),
    {
        self.0 == other.0
    }
}

/// The name of a style variable that stands for a color.
#[derive(Debug)]
pub struct VarColor(String);

impl VarColor {
    pub closed spec fn view(&self) -> Seq<char> {
        self.0@
    }

    #[verifier::type_invariant]
    spec fn inv(&self) -> bool {
        valid_var_name(self.0@)
    }

    /// Admits `var_name` when it is a style variable name.
    pub fn new(var_name: &str) -> (r: Result<VarColor, ColorError>)
        ensures
            match r {
                Ok(v) => valid_var_name(var_name@) && v@ == var_name@,
                Err(e) => !valid_var_name(var_name@) && e == ColorError::InvalidVariableName,
            },
            is_ascii_text(var_name@) ==> (r is Ok <==> ascii_var_name(var_name@)),
    {
        let cs = chars_of(var_name);
        if is_valid_var_name(&cs) {
            Ok(VarColor(var_name.to_owned()))
        } else {
            Err(ColorError::InvalidVariableName)
        }
    }

    /// The name, which is always a valid style variable name.
    pub fn as_str(&self) -> (r: &str)
        ensures
            r@ == self@,
            valid_var_name(r@),
    {
        proof {
            use_type_invariant(self);
        }
        self.0.as_str()
    }
}

} // verus!
