//! The attribute table of an SVG root tag: unique names mapped to values,
//! kept in the order in which each name was first set.
use vstd::prelude::*;

use crate::text::{push_all, push_char};

verus! {

/// A keyed entry as plain text: an attribute name and its value, or a color
/// literal and its variable name.
pub type TextPair = (Seq<char>, Seq<char>);

/// The table that a list of assignments leaves behind: a later assignment of
/// a name overrides an earlier one.
pub open spec fn table_of(ps: Seq<TextPair>) -> Map<Seq<char>, Seq<char>>
    decreases ps.len(),
{
    if ps.len() == 0 {
        Map::empty()
    } else {
        table_of(ps.drop_last()).insert(ps.last().0, ps.last().1)
    }
}

/// No key appears twice.
pub open spec fn unique_keys(ps: Seq<TextPair>) -> bool {
    forall|i: int, j: int| 0 <= i < j < ps.len() ==> ps[i].0 != ps[j].0
}

/// The first index at or after `i` whose name is `k`, or -1.
pub open spec fn key_index_from(ps: Seq<TextPair>, k: Seq<char>, i: int) -> int
    decreases ps.len() - i,
{
    if i < 0 || i >= ps.len() {
        -1
    } else if ps[i].0 == k {
        i
    } else {
        key_index_from(ps, k, i + 1)
    }
}

/// The list after setting `k` to `v`: the entry of that key is updated in
/// place, or a new one is appended.
pub open spec fn with_entry(ps: Seq<TextPair>, k: Seq<char>, v: Seq<char>) -> Seq<TextPair> {
    let i = key_index_from(ps, k, 0);
    if i >= 0 {
        ps.update(i, (k, v))
    } else {
        ps.push((k, v))
    }
}

/// `name='value'` for one attribute.
pub open spec fn attr_text(a: TextPair) -> Seq<char> {
    a.0 + seq!['=', '\''] + a.1 + seq!['\'']
}

/// Each attribute preceded by a space.
pub open spec fn attrs_text(ps: Seq<TextPair>) -> Seq<char>
    decreases ps.len(),
{
    if ps.len() == 0 {
        Seq::empty()
    } else {
        attrs_text(ps.drop_last()) + seq![' '] + attr_text(ps.last())
    }
}

/// The open tag `<svg name='value' ...>` for a list of attributes.
pub open spec fn serialized(ps: Seq<TextPair>) -> Seq<char> {
    seq!['<', 's', 'v', 'g'] + attrs_text(ps) + seq!['>']
}

pub proof fn lemma_key_index_from(ps: Seq<TextPair>, k: Seq<char>, i: int)
    requires
        0 <= i,
    ensures
        key_index_from(ps, k, i) == -1 ==> forall|j: int| i <= j < ps.len() ==> ps[j].0 != k,
        key_index_from(ps, k, i) != -1 ==> {
            let n = key_index_from(ps, k, i);
            i <= n < ps.len() && ps[n].0 == k
        },
    decreases ps.len() - i,
{
    if i < ps.len() && ps[i].0 != k {
        lemma_key_index_from(ps, k, i + 1);
    }
}

proof fn lemma_table_update(ps: Seq<TextPair>, i: int, k: Seq<char>, v: Seq<char>)
    requires
        unique_keys(ps),
        0 <= i < ps.len(),
        ps[i].0 == k,
    ensures
        table_of(ps.update(i, (k, v))) == table_of(ps).insert(k, v),
    decreases ps.len(),
{
    let qs = ps.update(i, (k, v));
    if i == ps.len() - 1 {
        assert(qs.drop_last() == ps.drop_last());
        assert(table_of(ps).insert(k, v) == table_of(ps.drop_last()).insert(k, v));
    } else {
        assert(qs.drop_last() == ps.drop_last().update(i, (k, v)));
        lemma_table_update(ps.drop_last(), i, k, v);
        assert(ps.last().0 != k);
        assert(table_of(qs) == table_of(ps.drop_last()).insert(k, v).insert(
            ps.last().0,
            ps.last().1,
        ));
    }
}

/// Setting an attribute keeps names unique and updates the table as a map
/// insertion does.
pub proof fn lemma_with_entry(ps: Seq<TextPair>, k: Seq<char>, v: Seq<char>)
    requires
        unique_keys(ps),
    ensures
        unique_keys(with_entry(ps, k, v)),
        table_of(with_entry(ps, k, v)) == table_of(ps).insert(k, v),
{
    lemma_key_index_from(ps, k, 0);
    let i = key_index_from(ps, k, 0);
    if i >= 0 {
        lemma_table_update(ps, i, k, v);
    } else {
        let qs = ps.push((k, v));
        assert(qs.drop_last() == ps);
    }
}

/// An attribute table: each name at most once, in the order of first setting.
/// Two tables are equal when they hold the same entries in the same order.
#[derive(Debug, PartialEq, Eq)]
pub struct SvgAttributes {
    entries: Vec<(String, String)>,
}

impl SvgAttributes {
    /// The entries as plain text, in order.
    pub closed spec fn pairs(&self) -> Seq<TextPair> {
        self.entries@.map_values(|e: (String, String)| (e.0@, e.1@))
    }

    /// Each name appears once.
    #[verifier::type_invariant]
    pub open spec fn inv(&self) -> bool {
        unique_keys(self.pairs())
    }

    /// The table as a map from name to value.
    pub open spec fn view(&self) -> Map<Seq<char>, Seq<char>> {
        table_of(self.pairs())
    }

    pub fn new() -> (r: Self)
        ensures
            r.pairs() == Seq::<TextPair>::empty(),
            r@ == Map::<Seq<char>, Seq<char>>::empty(),
    {
        let r = SvgAttributes { entries: Vec::new() };
        assert(r.pairs() =~= Seq::<TextPair>::empty());
        r
    }

    fn index_of(&self, name: &String) -> (r: Option<usize>)
        ensures
            match r {
                Some(i) => key_index_from(self.pairs(), name@, 0) == i as int,
                None => key_index_from(self.pairs(), name@, 0) == -1,
            },
    {
        let mut i: usize = 0;
        while i < self.entries.len()
            invariant
                i <= self.entries.len(),
                key_index_from(self.pairs(), name@, 0) == key_index_from(
                    self.pairs(),
                    name@,
                    i as int,
                ),
            decreases self.entries.len() - i,
        {
            if self.entries[i].0 == *name {
                return Some(i);
            }
            i = i + 1;
        }
        None
    }

    /// Sets `attr_name` to `attr_value`, overriding an earlier value.
    pub fn set_attribute(&mut self, attr_name: &str, attr_value: &str)
        ensures
            final(self).pairs() == with_entry(old(self).pairs(), attr_name@, attr_value@),
            final(self)@ == old(self)@.insert(attr_name@, attr_value@),
    {
        proof {
            use_type_invariant(&*self);
            lemma_with_entry(self.pairs(), attr_name@, attr_value@);
            lemma_key_index_from(self.pairs(), attr_name@, 0);
            assert(self.pairs().len() == self.entries@.len());
        }
        let name = attr_name.to_owned();
        let value = attr_value.to_owned();
        let found = self.index_of(&name);
        let n = self.entries.len();
        let mut entries: Vec<(String, String)> = Vec::new();
        let mut k: usize = 0;
        while k < n
            invariant
                k <= n == self.entries.len(),
                entries@.len() == k,
                forall|j: int|
                    0 <= j < k ==> (#[trigger] entries@[j]).0@ == self.entries@[j].0@
                        && entries@[j].1@ == self.entries@[j].1@,
            decreases n - k,
        {
            entries.push((self.entries[k].0.clone(), self.entries[k].1.clone()));
            k = k + 1;
        }
        match found {
            Some(i) => {
                entries.set(i, (name, value));
            },
            None => {
                entries.push((name, value));
            },
        }
        let ghost ps = entries@.map_values(|e: (String, String)| (e.0@, e.1@));
        assert(ps =~= with_entry(old(self).pairs(), attr_name@, attr_value@));
        self.entries = entries;
    }

    /// The value of `attr_name`, if it is set.
    pub fn get_attribute(&self, attr_name: &str) -> (r: Option<&String>)
        ensures
            match r {
                Some(v) => self@.contains_key(attr_name@) && self@[attr_name@] == v@,
                None => !self@.contains_key(attr_name@),
            },
    {
        let name = attr_name.to_owned();
        proof {
            use_type_invariant(self);
            lemma_lookup(self.pairs(), name@);
            lemma_key_index_from(self.pairs(), name@, 0);
        }
        match self.index_of(&name) {
            Some(i) => Some(&self.entries[i].1),
            None => None,
        }
    }

    /// The open tag `<svg name='value' ...>`, attributes in table order, each
    /// name once.
    pub fn serialize(&self) -> (r: String)
        ensures
            r@ == serialized(self.pairs()),
            unique_keys(self.pairs()),
    {
        proof {
            use_type_invariant(self);
        }
        let mut r = String::new();
        push_char(&mut r, '<');
        push_char(&mut r, 's');
        push_char(&mut r, 'v');
        push_char(&mut r, 'g');
        let ghost head = r@;
        let mut i: usize = 0;
        while i < self.entries.len()
            invariant
                i <= self.entries.len(),
                head == seq!['<', 's', 'v', 'g'],
                r@ == head + attrs_text(self.pairs().take(i as int)),
            decreases self.entries.len() - i,
        {
            let ghost before = r@;
            push_char(&mut r, ' ');
            push_str_chars(&mut r, self.entries[i].0.as_str());
            push_char(&mut r, '=');
            push_char(&mut r, '\'');
            push_str_chars(&mut r, self.entries[i].1.as_str());
            push_char(&mut r, '\'');
            proof {
                let ps = self.pairs().take(i + 1);
                assert(ps.drop_last() == self.pairs().take(i as int));
                assert(r@ =~= before + seq![' '] + attr_text(ps.last()));
            }
            i = i + 1;
        }
        push_char(&mut r, '>');
        assert(self.pairs().take(self.entries.len() as int) == self.pairs());
        r
    }
}

/// An attribute table whose setter takes owned strings.
#[derive(Debug, PartialEq, Eq)]
pub struct XmlAttributes(SvgAttributes);

impl XmlAttributes {
    /// The entries as plain text, in order.
    pub closed spec fn pairs(&self) -> Seq<TextPair> {
        self.0.pairs()
    }

    /// The table as a map from name to value.
    pub open spec fn view(&self) -> Map<Seq<char>, Seq<char>> {
        table_of(self.pairs())
    }

    pub fn new() -> (r: Self)
        ensures
            r.pairs() == Seq::<TextPair>::empty(),
            r@ == Map::<Seq<char>, Seq<char>>::empty(),
    {
        XmlAttributes(SvgAttributes::new())
    }

    /// Sets `attr_name` to `attr_value`, overriding an earlier value.
    pub fn set_attribute(&mut self, attr_name: String, attr_value: String)
        ensures
            final(self).pairs() == with_entry(old(self).pairs(), attr_name@, attr_value@),
            final(self)@ == old(self)@.insert(attr_name@, attr_value@),
    {
        self.0.set_attribute(attr_name.as_str(), attr_value.as_str());
    }

    /// The open tag `<svg name='value' ...>`, attributes in table order, each
    /// name once.
    pub fn serialize(&self) -> (r: String)
        ensures
            r@ == serialized(self.pairs()),
            unique_keys(self.pairs()),
    {
        self.0.serialize()
    }
}

/// What the table maps a name to is the value of the entry of that name.
pub proof fn lemma_lookup(ps: Seq<TextPair>, k: Seq<char>)
    requires
        unique_keys(ps),
    ensures
        table_of(ps).contains_key(k) <==> exists|i: int| 0 <= i < ps.len() && ps[i].0 == k,
        forall|i: int| 0 <= i < ps.len() && ps[i].0 == k ==> table_of(ps)[k] == ps[i].1,
    decreases ps.len(),
{
    if ps.len() > 0 {
        let qs = ps.drop_last();
        lemma_lookup(qs, k);
        assert forall|i: int| 0 <= i < ps.len() && ps[i].0 == k implies table_of(ps)[k]
            == ps[i].1 by {
            if i < ps.len() - 1 {
                assert(qs[i] == ps[i]);
            }
        }
        if table_of(ps).contains_key(k) && ps.last().0 != k {
            let j = choose|j: int| 0 <= j < qs.len() && qs[j].0 == k;
            assert(ps[j] == qs[j]);
        }
        if exists|i: int| 0 <= i < ps.len() && ps[i].0 == k {
            let i = choose|i: int| 0 <= i < ps.len() && ps[i].0 == k;
            if i < ps.len() - 1 {
                assert(qs[i].0 == k);
            }
        }
    }
}

/// Appends the characters of `s` to `out`.
fn push_str_chars(out: &mut String, s: &str)
    ensures
        final(out)@ == old(out)@ + s@,
{
    let v = crate::text::chars_of(s);
    push_all(out, &v);
}

} // verus!
