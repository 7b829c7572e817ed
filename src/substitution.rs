//! Color substitution: each rule in turn replaces every occurrence of its
//! color literal with a reference to its style variable.
use vstd::prelude::*;

use crate::attributes::TextPair;
use crate::pattern::{regex_compiles, replace_matches, ColorPattern};
use crate::config::Config;
use crate::text::{chars_of, contains, occurs_at, replace_all, string_of};

verus! {

/// `var({name})`.
pub open spec fn var_ref(name: Seq<char>) -> Seq<char> {
    "var("@ + name + ")"@
}

/// The text after each rule in turn has replaced every occurrence of its
/// literal with a reference to its variable.
///
/// A color literal holds no regex syntax, so the regex engine refuses one only
/// where the compiled program would exceed its default size limit (a literal
/// of many thousands of characters). Such a rule changes nothing: the
/// substitution has no error case.
pub open spec fn apply_rules(s: Seq<char>, rs: Seq<TextPair>) -> Seq<char>
    decreases rs.len(),
{
    if rs.len() == 0 {
        s
    } else {
        let prev = apply_rules(s, rs.drop_last());
        if regex_compiles(rs.last().0) {
            replace_all(prev, rs.last().0, var_ref(rs.last().1))
        } else {
            prev
        }
    }
}

/// A rule whose literal does not occur leaves the text as it is.
pub proof fn lemma_replace_absent(s: Seq<char>, p: Seq<char>, r: Seq<char>)
    requires
        !contains(s, p),
    ensures
        replace_all(s, p, r) == s,
    decreases s.len(),
{
    if s.len() > 0 {
        if p.len() > 0 && occurs_at(s, p, 0) {
            assert(contains(s, p));
        }
        assert forall|i: int| !occurs_at(s.skip(1), p, i) by {
            if occurs_at(s.skip(1), p, i) {
                assert(s.subrange(i + 1, i + 1 + p.len()) == s.skip(1).subrange(i, i + p.len()));
                assert(occurs_at(s, p, i + 1));
            }
        }
        lemma_replace_absent(s.skip(1), p, r);
        assert(seq![s[0]] + s.skip(1) == s);
    }
}

/// `var({name})`.
fn var_ref_exec(name: &str) -> (r: String)
    ensures
        r@ == var_ref(name@),
{
    let n = chars_of(name);
    let mut r: Vec<char> = vec!['v', 'a', 'r', '('];
    let mut i: usize = 0;
    while i < n.len()
        invariant
            i <= n.len(),
            r@ == seq!['v', 'a', 'r', '('] + n@.take(i as int),
        decreases n.len() - i,
    {
        r.push(n[i]);
        i = i + 1;
    }
    r.push(')');
    proof {
        reveal_strlit("var(");
        reveal_strlit(")");
    }
    assert(r@ =~= var_ref(name@));
    string_of(&r)
}

/// `s` after every color rule of `config` in turn; a rule whose literal the
/// regex engine refuses (only past its size limit) is skipped.
pub fn apply_color_rules(s: &str, config: &Config) -> (r: String)
    ensures
        r@ == apply_rules(s@, config.rules()),
{
    let ghost rs = config.rules();
    let rules = config.color_mappings();
    let mut acc = s.to_owned();
    let mut i: usize = 0;
    while i < rules.len()
        invariant
            i <= rules.len(),
            rs == config.rules(),
            rules@.len() == rs.len(),
            forall|k: int|
                0 <= k < rules@.len() ==> (#[trigger] rules@[k]).0@ == rs[k].0 && rules@[k].1@
                    == rs[k].1,
            acc@ == apply_rules(s@, rs.take(i as int)),
        decreases rules.len() - i,
    {
        let r = var_ref_exec(rules[i].1.as_str());
        match ColorPattern::new(&rules[i].0) {
            Some(pattern) => {
                acc = replace_matches(&pattern, acc.as_str(), r.as_str());
            },
            None => {},
        }
        assert(rs.take(i + 1).drop_last() == rs.take(i as int));
        i = i + 1;
    }
    assert(rs.take(rules.len() as int) == rs);
    acc
}

} // verus!
