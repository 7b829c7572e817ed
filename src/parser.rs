//! Locating the SVG root open tag in a document and reading its quoted
//! attributes.
//!
//! The open tag is the leftmost `<svg` followed, at some later point, by `>`:
//! it runs up to the first such `>`. Inside it an attribute is a run of word
//! characters, `=`, a quote, one or more characters other than that quote,
//! and the same quote again. Attributes are matched leftmost first without
//! overlap; anything else in the tag (unquoted or bare attributes) is skipped.
use vstd::prelude::*;

use crate::attributes::{table_of, TextPair, SvgAttributes};
use crate::text::{
    chars_of, contains, slice_of, find_exec, find_from, lemma_find_from_spec, push_range, occurs_at,
};

verus! {

/// Whether a character is alphanumeric in the Unicode sense.
pub uninterp spec fn alphanumeric(c: char) -> bool;

/// An ASCII letter or digit.
pub open spec fn is_ascii_alphanumeric(c: char) -> bool {
    ('a' <= c && c <= 'z') || ('A' <= c && c <= 'Z') || ('0' <= c && c <= '9')
}

/// Relies on `char::is_alphanumeric`: Unicode's Alphabetic or Numeric property,
/// which among ASCII characters holds of the letters and digits alone.
#[verifier::external_body]
pub(crate) fn is_alphanumeric(c: char) -> (r: bool)
    ensures
        r == alphanumeric(c),
        (c as u32) < 128 ==> (r <==> is_ascii_alphanumeric(c)),
{
    c.is_alphanumeric()
}

/// A character that may appear in an attribute name: alphanumeric or `_`.
/// On ASCII this is the usual word character; beyond ASCII it follows
/// `char::is_alphanumeric`, so it admits numerals such as `²` and leaves out
/// combining marks.
pub open spec fn is_word_char(c: char) -> bool {
    alphanumeric(c) || c == '_'
}

pub open spec fn is_quote(c: char) -> bool {
    c == '"' || c == '\''
}

/// `<svg`.
pub open spec fn svg_open_text() -> Seq<char> {
    seq!['<', 's', 'v', 'g']
}

/// The start of the open tag and the index of its closing `>`.
pub open spec fn open_tag_bounds(s: Seq<char>) -> Option<(int, int)> {
    match find_from(s, svg_open_text(), 0) {
        Some(i) => match find_from(s, seq!['>'], i + 4) {
            Some(j) => Some((i, j)),
            None => None,
        },
        None => None,
    }
}

/// The end of the run of word characters that starts at `k`.
pub open spec fn word_end(t: Seq<char>, k: int) -> int
    decreases t.len() - k,
{
    if 0 <= k < t.len() && is_word_char(t[k]) {
        word_end(t, k + 1)
    } else {
        k
    }
}

/// The first index at or after `k` that holds `q`, or the length of `t`.
pub open spec fn run_end(t: Seq<char>, k: int, q: char) -> int
    decreases t.len() - k,
{
    if 0 <= k < t.len() && t[k] != q {
        run_end(t, k + 1, q)
    } else {
        k
    }
}

/// An attribute that starts at `p`: the end of its name and the index of its
/// closing quote. The name is `t[p..n]`, the value `t[n + 2..v]`.
pub open spec fn attr_at(t: Seq<char>, p: int) -> Option<(int, int)> {
    let n = word_end(t, p);
    if n > p && n + 1 < t.len() && t[n] == '=' && is_quote(t[n + 1]) {
        let v = run_end(t, n + 2, t[n + 1]);
        if v > n + 2 && v < t.len() {
            Some((n, v))
        } else {
            None
        }
    } else {
        None
    }
}

/// The attributes found in `t` from index `p` on, leftmost first.
pub open spec fn attr_pairs(t: Seq<char>, p: int) -> Seq<TextPair>
    decreases t.len() - p,
{
    if p < 0 || p >= t.len() {
        Seq::empty()
    } else {
        match attr_at(t, p) {
            Some((n, v)) => seq![(t.subrange(p, n), t.subrange(n + 2, v))] + attr_pairs(t, v + 1),
            None => attr_pairs(t, p + 1),
        }
    }
}

/// The attribute table of the open tag whose bounds are `(i, j)`.
pub open spec fn tag_table(s: Seq<char>, i: int, j: int) -> Map<Seq<char>, Seq<char>> {
    table_of(attr_pairs(s.subrange(i + 4, j), 0))
}

/// Why a document could not be parsed.
#[derive(Debug, PartialEq, Eq, Structural, Clone, Copy)]
pub enum ParseError {
    /// The document holds no SVG root open tag.
    NoTagFound,
}

proof fn lemma_word_end(t: Seq<char>, k: int)
    requires
        0 <= k <= t.len(),
    ensures
        k <= word_end(t, k) <= t.len(),
    decreases t.len() - k,
{
    if k < t.len() && is_word_char(t[k]) {
        lemma_word_end(t, k + 1);
    }
}

proof fn lemma_run_end(t: Seq<char>, k: int, q: char)
    requires
        0 <= k <= t.len(),
    ensures
        k <= run_end(t, k, q) <= t.len(),
    decreases t.len() - k,
{
    if k < t.len() && t[k] != q {
        lemma_run_end(t, k + 1, q);
    }
}

fn word_end_exec(t: &Vec<char>, k: usize) -> (r: usize)
    requires
        k <= t.len(),
    ensures
        r as int == word_end(t@, k as int),
        k <= r <= t.len(),
{
    let mut i: usize = k;
    while i < t.len() && is_alphanumeric(t[i]) || i < t.len() && t[i] == '_'
        invariant
            k <= i <= t.len(),
            word_end(t@, k as int) == word_end(t@, i as int),
        decreases t.len() - i,
    {
        i = i + 1;
    }
    i
}

fn run_end_exec(t: &Vec<char>, k: usize, q: char) -> (r: usize)
    requires
        k <= t.len(),
    ensures
        r as int == run_end(t@, k as int, q),
        k <= r <= t.len(),
{
    let mut i: usize = k;
    while i < t.len() && t[i] != q
        invariant
            k <= i <= t.len(),
            run_end(t@, k as int, q) == run_end(t@, i as int, q),
        decreases t.len() - i,
    {
        i = i + 1;
    }
    i
}

fn attr_at_exec(t: &Vec<char>, p: usize) -> (r: Option<(usize, usize)>)
    requires
        p < t.len(),
    ensures
        match r {
            Some((n, v)) => attr_at(t@, p as int) == Some((n as int, v as int)),
            None => attr_at(t@, p as int) is None,
        },
{
    let n = word_end_exec(t, p);
    if n > p && n < t.len() - 1 && t[n] == '=' && (t[n + 1] == '"' || t[n + 1] == '\'') {
        let v = run_end_exec(t, n + 2, t[n + 1]);
        if v > n + 2 && v < t.len() {
            return Some((n, v));
        }
    }
    None
}

fn string_of_range(v: &Vec<char>, from: usize, to: usize) -> (r: String)
    requires
        from <= to <= v.len(),
    ensures
        r@ == v@.subrange(from as int, to as int),
{
    let mut r = String::new();
    push_range(&mut r, v, from, to);
    r
}

/// The attribute table of the text `t` of an open tag.
fn parse_tag_attributes(t: &Vec<char>) -> (r: SvgAttributes)
    ensures
        r@ == table_of(attr_pairs(t@, 0)),
{
    let mut attrs = SvgAttributes::new();
    let ghost found: Seq<TextPair> = Seq::empty();
    let mut p: usize = 0;
    while p < t.len()
        invariant
            p <= t.len(),
            attrs@ == table_of(found),
            found + attr_pairs(t@, p as int) == attr_pairs(t@, 0),
        decreases t.len() - p,
    {
        match attr_at_exec(t, p) {
            Some((n, v)) => {
                let name = string_of_range(t, p, n);
                let value = string_of_range(t, n + 2, v);
                attrs.set_attribute(name.as_str(), value.as_str());
                proof {
                    let x = (name@, value@);
                    assert(found.push(x).drop_last() == found);
                    assert(found.push(x) + attr_pairs(t@, v + 1) =~= found + attr_pairs(
                        t@,
                        p as int,
                    ));
                    found = found.push(x);
                }
                p = v + 1;
            },
            None => {
                p = p + 1;
            },
        }
    }
    assert(found + attr_pairs(t@, p as int) =~= found);
    attrs
}

/// Finds the SVG root open tag of a document and reads its attributes.
/// Returns the table and the verbatim text of the tag.
pub fn parse_attributes(raw_svg_text: &str) -> (r: Result<(SvgAttributes, String), ParseError>)
    ensures
        match open_tag_bounds(raw_svg_text@) {
            Some((i, j)) => r is Ok && r->Ok_0.0@ == tag_table(
                raw_svg_text@,
                i,
                j,
            ) && r->Ok_0.1@ == raw_svg_text@.subrange(i, j + 1),
            None => r == Err::<(SvgAttributes, String), ParseError>(ParseError::NoTagFound),
        },
        !contains(raw_svg_text@, svg_open_text()) ==> r is Err,
{
    let s = chars_of(raw_svg_text);
    let n: usize = s.len();
    let open: Vec<char> = vec!['<', 's', 'v', 'g'];
    let close: Vec<char> = vec!['>'];
    proof {
        assert(open@ == svg_open_text());
        assert(close@ == seq!['>']);
        assert(open@.len() == 4 && close@.len() == 1);
        lemma_find_from_spec(s@, open@, 0);
    }
    match find_exec(&s, &open, 0) {
        None => Err(ParseError::NoTagFound),
        Some(i) => {
            proof {
                assert(occurs_at(s@, open@, i as int));
                assert(i + 4 <= s@.len());
                lemma_find_from_spec(s@, close@, i + 4);
            }
            match find_exec(&s, &close, i + 4) {
                None => Err(ParseError::NoTagFound),
                Some(j) => {
                    proof {
                        assert(occurs_at(s@, close@, j as int));
                    }
                    let region = slice_of(&s, i + 4, j);
                    let attrs = parse_tag_attributes(&region);
                    let tag = string_of_range(&s, i, j + 1);
                    Ok((attrs, tag))
                },
            }
        },
    }
}

} // verus!
