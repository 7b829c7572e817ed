//! The settings of a run: the files it reads and writes, and the color rules.
use vstd::prelude::*;

use crate::attributes::{
    key_index_from, lemma_key_index_from, lemma_with_entry, unique_keys, with_entry, TextPair,
};
use crate::color::{CssColor, VarColor};

verus! {

/// No source literal appears twice.
pub open spec fn valid_rules(rs: Seq<TextPair>) -> bool {
    unique_keys(rs)
}

/// Color rules as plain text.
pub closed spec fn mapping_pairs(v: Seq<(CssColor, VarColor)>) -> Seq<TextPair> {
    v.map_values(|e: (CssColor, VarColor)| (e.0@, e.1@))
}

/// The settings of a run.
pub struct Config {
    style_file_path: String,
    svg_file_path: String,
    output_file_path: String,
    color_mappings: Vec<(CssColor, VarColor)>,
}

impl Config {
    /// The color rules, in the order in which their literals were first set.
    pub closed spec fn rules(&self) -> Seq<TextPair> {
        mapping_pairs(self.color_mappings@)
    }

    pub closed spec fn style_path(&self) -> Seq<char> {
        self.style_file_path@
    }

    pub closed spec fn svg_path(&self) -> Seq<char> {
        self.svg_file_path@
    }

    pub closed spec fn output_path(&self) -> Seq<char> {
        self.output_file_path@
    }

    /// No color literal has two rules.
    #[verifier::type_invariant]
    pub open spec fn inv(&self) -> bool {
        valid_rules(self.rules())
    }

    pub fn color_mappings(&self) -> (r: &Vec<(CssColor, VarColor)>)
        ensures
            r@.len() == self.rules().len(),
            forall|i: int|
                0 <= i < r@.len() ==> (#[trigger] r@[i]).0@ == self.rules()[i].0 && r@[i].1@
                    == self.rules()[i].1,
    {
        &self.color_mappings
    }

    /// Maps `css_color` to `var_color`, replacing an earlier rule for the same
    /// literal.
    pub fn set_color_mapping(&mut self, css_color: CssColor, var_color: VarColor)
        ensures
            final(self).rules() == with_entry(old(self).rules(), css_color@, var_color@),
            final(self).style_path() == old(self).style_path(),
            final(self).svg_path() == old(self).svg_path(),
            final(self).output_path() == old(self).output_path(),
    {
        let ghost k = css_color@;
        let ghost v = var_color@;
        let ghost before = self.rules();
        proof {
            use_type_invariant(&*self);
            lemma_with_entry(before, k, v);
            lemma_key_index_from(before, k, 0);
        }
        let mut mappings: Vec<(CssColor, VarColor)> = Vec::new();
        std::mem::swap(&mut self.color_mappings, &mut mappings);
        assert(mapping_pairs(mappings@) == before);
        let mut i: usize = 0;
        while i < mappings.len()
            invariant
                i <= mappings.len(),
                k == css_color@,
                mapping_pairs(mappings@) == before,
                key_index_from(before, k, 0) == key_index_from(before, k, i as int),
            ensures
                i <= mappings.len(),
                key_index_from(before, k, 0) == if i < mappings.len() {
                    i as int
                } else {
                    -1
                },
            decreases mappings.len() - i,
        {
            if mappings[i].0.same_as(&css_color) {
                break;
            }
            i = i + 1;
        }
        if i < mappings.len() {
            mappings.set(i, (css_color, var_color));
        } else {
            mappings.push((css_color, var_color));
        }
        assert(mapping_pairs(mappings@) =~= with_entry(before, k, v));
        self.color_mappings = mappings;
    }

    pub fn set_style_file_path(&mut self, style_file_path: &str)
        ensures
            final(self).style_path() == style_file_path@,
            final(self).svg_path() == old(self).svg_path(),
            final(self).output_path() == old(self).output_path(),
            final(self).rules() == old(self).rules(),
    {
        proof {
            use_type_invariant(&*self);
        }
        self.style_file_path = style_file_path.to_owned();
    }

    pub fn set_svg_file_path(&mut self, svg_file_path: &str)
        ensures
            final(self).svg_path() == svg_file_path@,
            final(self).style_path() == old(self).style_path(),
            final(self).output_path() == old(self).output_path(),
            final(self).rules() == old(self).rules(),
    {
        proof {
            use_type_invariant(&*self);
        }
        self.svg_file_path = svg_file_path.to_owned();
    }

    pub fn set_output_file_path(&mut self, output_file_path: &str)
        ensures
            final(self).output_path() == output_file_path@,
            final(self).style_path() == old(self).style_path(),
            final(self).svg_path() == old(self).svg_path(),
            final(self).rules() == old(self).rules(),
    {
        proof {
            use_type_invariant(&*self);
        }
        self.output_file_path = output_file_path.to_owned();
    }

    pub fn style_file_path(&self) -> (r: &str)
        ensures
            r@ == self.style_path(),
    {
        self.style_file_path.as_str()
    }

    pub fn svg_file_path(&self) -> (r: &str)
        ensures
            r@ == self.svg_path(),
    {
        self.svg_file_path.as_str()
    }

    pub fn output_file_path(&self) -> (r: &str)
        ensures
            r@ == self.output_path(),
    {
        self.output_file_path.as_str()
    }
}

impl Default for Config {
    /// Reads `style.css` and `Background-Light.svg`, writes `Diagram.svelte`,
    /// and has no color rules.
    fn default() -> (r: Config)
        ensures
            r.rules() == Seq::<TextPair>::empty(),
            r.style_path() == "style.css"@,
            r.svg_path() == "Background-Light.svg"@,
            r.output_path() == "Diagram.svelte"@,
    {
        let r = Config {
            style_file_path: "style.css".to_owned(),
            svg_file_path: "Background-Light.svg".to_owned(),
            output_file_path: "Diagram.svelte".to_owned(),
            color_mappings: Vec::new(),
        };
        assert(r.rules() =~= Seq::<TextPair>::empty());
        r
    }
}

} // verus!
