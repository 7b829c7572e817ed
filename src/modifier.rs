//! The transform pipeline: normalizing the root open tag, then replacing
//! color literals with style variables throughout the document.
use vstd::prelude::*;

use crate::attributes::{
    lemma_with_entry, serialized, table_of, unique_keys, with_entry, SvgAttributes, TextPair,
};
use crate::config::Config;
use crate::parser::open_tag_bounds;
use crate::substitution::{apply_color_rules, apply_rules};
use crate::text::{
    chars_of, find_from, lemma_find_from_spec, occurs_at, push_char, replace_first,
    replace_first_exec,
};

verus! {

pub open spec fn xmlns_value() -> Seq<char> {
    "http://www.w3.org/2000/svg"@
}

/// `0 0 {width} {height}`.
pub open spec fn view_box_value(width: Seq<char>, height: Seq<char>) -> Seq<char> {
    "0 0 "@ + width + " "@ + height
}

/// The entries after forcing `class`, `fill` and `xmlns`.
pub open spec fn forced_pairs(ps: Seq<TextPair>) -> Seq<TextPair> {
    with_entry(
        with_entry(with_entry(ps, "class"@, "diagram"@), "fill"@, "none"@),
        "xmlns"@,
        xmlns_value(),
    )
}

/// The entries of the normalized tag: the forced attributes, then `viewBox`
/// where both `width` and `height` are set.
pub open spec fn normalized_pairs(ps: Seq<TextPair>) -> Seq<TextPair> {
    let q = forced_pairs(ps);
    let m = table_of(q);
    if m.contains_key("width"@) && m.contains_key("height"@) {
        with_entry(q, "viewBox"@, view_box_value(m["width"@], m["height"@]))
    } else {
        q
    }
}

/// The normalized table, as a map.
pub open spec fn normalized_table(m: Map<Seq<char>, Seq<char>>) -> Map<Seq<char>, Seq<char>> {
    let q = m.insert("class"@, "diagram"@).insert("fill"@, "none"@).insert(
        "xmlns"@,
        xmlns_value(),
    );
    if m.contains_key("width"@) && m.contains_key("height"@) {
        q.insert("viewBox"@, view_box_value(m["width"@], m["height"@]))
    } else {
        q
    }
}

/// The document after the open tag `tag` is rewritten from `attrs`.
pub open spec fn fixed_text(raw: Seq<char>, tag: Seq<char>, attrs: Seq<TextPair>) -> Seq<char> {
    replace_first(raw, tag, serialized(normalized_pairs(attrs)))
}

proof fn lemma_literals_distinct()
    ensures
        "class"@ != "width"@,
        "class"@ != "height"@,
        "class"@ != "viewBox"@,
        "fill"@ != "width"@,
        "fill"@ != "height"@,
        "fill"@ != "viewBox"@,
        "xmlns"@ != "width"@,
        "xmlns"@ != "height"@,
        "xmlns"@ != "viewBox"@,
        "class"@ != "fill"@,
        "class"@ != "xmlns"@,
        "fill"@ != "xmlns"@,
{
    reveal_strlit("class");
    reveal_strlit("fill");
    reveal_strlit("xmlns");
    reveal_strlit("width");
    reveal_strlit("height");
    reveal_strlit("viewBox");
    assert("class"@[0] != "width"@[0]);
    assert("class"@[0] != "height"@[0]);
    assert("class"@[0] != "viewBox"@[0]);
    assert("fill"@[0] != "width"@[0]);
    assert("fill"@[0] != "height"@[0]);
    assert("fill"@[0] != "viewBox"@[0]);
    assert("xmlns"@[0] != "width"@[0]);
    assert("xmlns"@[0] != "height"@[0]);
    assert("xmlns"@[0] != "viewBox"@[0]);
    assert("class"@[0] != "fill"@[0]);
    assert("class"@[0] != "xmlns"@[0]);
    assert("fill"@[0] != "xmlns"@[0]);
}

/// Normalizing the entries of a table normalizes the table, and keeps each
/// name once.
pub proof fn lemma_normalized_table(ps: Seq<TextPair>)
    requires
        unique_keys(ps),
    ensures
        unique_keys(normalized_pairs(ps)),
        table_of(normalized_pairs(ps)) == normalized_table(table_of(ps)),
{
    lemma_literals_distinct();
    let with_class = with_entry(ps, "class"@, "diagram"@);
    let with_fill = with_entry(with_class, "fill"@, "none"@);
    lemma_with_entry(ps, "class"@, "diagram"@);
    lemma_with_entry(with_class, "fill"@, "none"@);
    lemma_with_entry(with_fill, "xmlns"@, xmlns_value());
    let q = forced_pairs(ps);
    let m = table_of(ps);
    assert(table_of(q).contains_key("width"@) == m.contains_key("width"@));
    assert(table_of(q).contains_key("height"@) == m.contains_key("height"@));
    if m.contains_key("width"@) && m.contains_key("height"@) {
        assert(table_of(q)["width"@] == m["width"@]);
        assert(table_of(q)["height"@] == m["height"@]);
        lemma_with_entry(q, "viewBox"@, view_box_value(m["width"@], m["height"@]));
    }
}

/// Whatever the table held, the normalized table maps `class` to `diagram`,
/// `fill` to `none` and `xmlns` to the SVG namespace.
pub proof fn lemma_forced_attributes(m: Map<Seq<char>, Seq<char>>)
    ensures
        normalized_table(m).contains_key("class"@) && normalized_table(m)["class"@]
            == "diagram"@,
        normalized_table(m).contains_key("fill"@) && normalized_table(m)["fill"@] == "none"@,
        normalized_table(m).contains_key("xmlns"@) && normalized_table(m)["xmlns"@]
            == xmlns_value(),
{
    lemma_literals_distinct();
}

/// Where `width` and `height` are both set, `viewBox` is `0 0 {width} {height}`;
/// where the table had no `viewBox`, the normalized one has it exactly when
/// both are set.
pub proof fn lemma_view_box(m: Map<Seq<char>, Seq<char>>)
    ensures
        m.contains_key("width"@) && m.contains_key("height"@) ==> normalized_table(m)["viewBox"@]
            == view_box_value(m["width"@], m["height"@]),
        !m.contains_key("viewBox"@) ==> (normalized_table(m).contains_key("viewBox"@) <==> (
        m.contains_key("width"@) && m.contains_key("height"@))),
{
    lemma_literals_distinct();
}

/// Rewriting the open tag that the parser found keeps the text before it and
/// the text after it exactly as they were.
pub proof fn lemma_tag_frame(s: Seq<char>, new_tag: Seq<char>)
    requires
        open_tag_bounds(s) is Some,
    ensures
        ({
            let (i, j) = open_tag_bounds(s)->Some_0;
            replace_first(s, s.subrange(i, j + 1), new_tag) == s.take(i) + new_tag + s.skip(j + 1)
        }),
{
    let (i, j) = open_tag_bounds(s)->Some_0;
    let open = crate::parser::svg_open_text();
    lemma_find_from_spec(s, open, 0);
    lemma_find_from_spec(s, seq!['>'], i + 4);
    let tag = s.subrange(i, j + 1);
    assert(tag.subrange(0, 4) == s.subrange(i, i + 4));
    assert(occurs_at(s, tag, i));
    lemma_find_from_spec(s, tag, 0);
    let k = find_from(s, tag, 0)->Some_0;
    if k < i {
        assert(s.subrange(k, k + 4) == tag.subrange(0, 4));
        assert(occurs_at(s, open, k));
    }
}

/// `0 0 {width} {height}` as a string.
fn view_box(width: &String, height: &String) -> (r: String)
    ensures
        r@ == view_box_value(width@, height@),
{
    let mut r = String::new();
    push_char(&mut r, '0');
    push_char(&mut r, ' ');
    push_char(&mut r, '0');
    push_char(&mut r, ' ');
    let w = chars_of(width.as_str());
    crate::text::push_all(&mut r, &w);
    push_char(&mut r, ' ');
    let h = chars_of(height.as_str());
    crate::text::push_all(&mut r, &h);
    proof {
        reveal_strlit("0 0 ");
        reveal_strlit(" ");
    }
    assert(r@ =~= view_box_value(width@, height@));
    r
}

/// Normalizes the attributes of the open tag `original_tag_text` and puts the
/// rewritten tag in place of the first occurrence of that text.
pub fn modify_svg_open_tag(
    raw_svg_text: &str,
    original_tag_text: &str,
    attributes: SvgAttributes,
) -> (r: String)
    ensures
        r@ == fixed_text(raw_svg_text@, original_tag_text@, attributes.pairs()),
        unique_keys(normalized_pairs(attributes.pairs())),
        table_of(normalized_pairs(attributes.pairs())) == normalized_table(attributes@),
{
    proof {
        use_type_invariant(&attributes);
        lemma_normalized_table(attributes.pairs());
    }
    let mut attributes = attributes;
    let ghost ps = attributes.pairs();
    attributes.set_attribute("class", "diagram");
    attributes.set_attribute("fill", "none");
    attributes.set_attribute("xmlns", "http://www.w3.org/2000/svg");
    assert(attributes.pairs() == forced_pairs(ps));
    let vb = match (attributes.get_attribute("width"), attributes.get_attribute("height")) {
        (Some(width), Some(height)) => Some(view_box(width, height)),
        _ => None,
    };
    match vb {
        Some(v) => {
            attributes.set_attribute("viewBox", v.as_str());
        },
        None => {},
    }
    assert(attributes.pairs() == normalized_pairs(ps));
    let new_tag = attributes.serialize();
    let s = chars_of(raw_svg_text);
    let p = chars_of(original_tag_text);
    let t = chars_of(new_tag.as_str());
    replace_first_exec(&s, &p, &t)
}

/// A document on its way through the pipeline, with the settings it is
/// transformed by.
pub struct Modifier<'a> {
    config: &'a Config,
    accumulator: String,
}

impl<'a> Modifier<'a> {
    /// The document as it stands.
    pub closed spec fn text(&self) -> Seq<char> {
        self.accumulator@
    }

    /// The color rules of the settings.
    pub closed spec fn rules(&self) -> Seq<TextPair> {
        self.config.rules()
    }

    pub fn new(config: &'a Config, initial_accumulator: &str) -> (r: Self)
        ensures
            r.text() == initial_accumulator@,
            r.rules() == config.rules(),
    {
        Modifier { config, accumulator: initial_accumulator.to_owned() }
    }

    /// Normalizes the open tag `original_tag_text` of the document.
    pub fn fix_svg_open_tag(&mut self, original_tag_text: &str, attributes: SvgAttributes)
        ensures
            final(self).text() == fixed_text(old(self).text(), original_tag_text@, attributes.pairs()),
            final(self).rules() == old(self).rules(),
    {
        self.accumulator = modify_svg_open_tag(self.accumulator.as_str(), original_tag_text, attributes);
    }

    /// Replaces the color literals of the document, rule by rule. A rule whose
    /// literal exceeds the regex engine's size limit changes nothing.
    pub fn map_colors(&mut self)
        ensures
            final(self).text() == apply_rules(old(self).text(), old(self).rules()),
            final(self).rules() == old(self).rules(),
    {
        self.accumulator = apply_color_rules(self.accumulator.as_str(), self.config);
    }

    /// The document as it stands.
    pub fn accumulate(&self) -> (r: &str)
        ensures
            r@ == self.text(),
    {
        self.accumulator.as_str()
    }
}

} // verus!
