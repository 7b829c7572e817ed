//! A color literal compiled by the `regex` crate, and replacement of its
//! matches.
//!
//! Only `compile` builds a `ColorPattern`, and it records the exact text that
//! it handed to the regex engine; so the recorded literal is always the
//! pattern of the regex.
use vstd::prelude::*;

use crate::color::{valid_color_literal, CssColor};
use crate::text::replace_all;

verus! {

/// The compiled regex of the `regex` crate, carried as an opaque value.
#[verifier::external_type_specification]
#[verifier::external_body]
pub struct ExRegex(regex::Regex);

/// Whether the regex engine compiles a pattern; this depends on the pattern
/// alone.
pub uninterp spec fn regex_compiles(pattern: Seq<char>) -> bool;

/// A regex together with the pattern text it was compiled from.
pub struct ColorPattern {
    regex: regex::Regex,
    literal: String,
}

impl ColorPattern {
    /// The pattern text that the regex was compiled from.
    pub closed spec fn literal(&self) -> Seq<char> {
        self.literal@
    }

    /// Compiles the literal of `color`.
    pub fn new(color: &CssColor) -> (r: Option<ColorPattern>)
        ensures
            r is Some <==> regex_compiles(color@),
            r matches Some(p) ==> p.literal() == color@ && valid_color_literal(p.literal()),
    {
        compile(color.as_str())
    }
}

/// Relies on `regex::Regex::new`: it fails on invalid syntax, or where the
/// compiled program would exceed the default size limit. The result keeps the
/// pattern text next to the regex compiled from it.
#[verifier::external_body]
fn compile(pattern: &str) -> (r: Option<ColorPattern>)
    ensures
        r is Some <==> regex_compiles(pattern@),
        r matches Some(p) ==> p.literal() == pattern@,
{
    match regex::Regex::new(pattern) {
        Ok(regex) => Some(ColorPattern { regex, literal: pattern.to_string() }),
        Err(_) => None,
    }
}

/// Relies on `regex::Regex::replace_all` with `regex::NoExpand`: every
/// leftmost non-overlapping match is replaced by `replacement` as it is. The
/// pattern is a color literal, `#` and hexadecimal digits or letters, none of
/// which is regex syntax, so the matches are the occurrences of the literal.
#[verifier::external_body]
pub(crate) fn replace_matches(pattern: &ColorPattern, s: &str, replacement: &str) -> (r: String)
    requires
        valid_color_literal(pattern.literal()),
    ensures
        r@ == replace_all(s@, pattern.literal(), replacement@),
{
    pattern.regex.replace_all(s, regex::NoExpand(replacement)).into_owned()
}

} // verus!
