//! Assembling the output component: the SVG text followed by a style block.
use vstd::prelude::*;

use crate::text::{chars_of, push_all, push_char};

verus! {

/// `{svg}\n<style lang='{lang}'>\n\t{styling}\n</style>`.
pub open spec fn component_text(svg: Seq<char>, lang: Seq<char>, styling: Seq<char>) -> Seq<char> {
    svg + "\n<style lang='"@ + lang + "'>\n\t"@ + styling + "\n</style>"@
}

fn push_str(out: &mut String, s: &str)
    ensures
        final(out)@ == old(out)@ + s@,
{
    let v = chars_of(s);
    push_all(out, &v);
}

/// `{svg}\n<style>\n{styling}\n</style>`.
pub open spec fn plain_component_text(svg: Seq<char>, styling: Seq<char>) -> Seq<char> {
    svg + "\n<style>\n"@ + styling + "\n</style>"@
}

/// Builds the output component.
pub struct Transpiler;

impl Transpiler {
    /// The SVG text with the styling text appended in a style block of
    /// language `styling_lang`, inserted verbatim.
    pub fn to_svelte(raw_svg_text: &str, styling_lang: &str, raw_styling_text: &str) -> (r: String)
        ensures
            r@ == component_text(raw_svg_text@, styling_lang@, raw_styling_text@),
    {
        let mut r = String::new();
        push_str(&mut r, raw_svg_text);
        push_str(&mut r, "\n<style lang='");
        push_str(&mut r, styling_lang);
        push_str(&mut r, "'>\n\t");
        push_str(&mut r, raw_styling_text);
        push_str(&mut r, "\n</style>");
        assert(r@ =~= component_text(raw_svg_text@, styling_lang@, raw_styling_text@));
        r
    }

    /// The SVG text with the styling text appended in a style block with no
    /// language, inserted verbatim.
    pub fn to_plain_svelte(raw_svg_text: &str, raw_styling_text: &str) -> (r: String)
        ensures
            r@ == plain_component_text(raw_svg_text@, raw_styling_text@),
    {
        let mut r = String::new();
        push_str(&mut r, raw_svg_text);
        push_str(&mut r, "\n<style>\n");
        push_str(&mut r, raw_styling_text);
        push_str(&mut r, "\n</style>");
        assert(r@ =~= plain_component_text(raw_svg_text@, raw_styling_text@));
        r
    }
}

} // verus!
