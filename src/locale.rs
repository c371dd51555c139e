//! Locale-aware keys: the ordered list of candidate keys for a base key and a locale.
use vstd::prelude::*;
use vstd::std_specs::convert::FromSpecImpl;
use vstd::string::StringExecFns;

use crate::text::push_char;

verus! {

/// A lookup descriptor: a base key and a locale `lang_COUNTRY@MODIFIER`, country and modifier
/// optional.
#[derive(Debug, Clone, Copy, PartialEq, Eq)]
pub struct LocalizedKey<'a> {
    pub key: &'a str,
    pub lang: &'a str,
    pub country: Option<&'a str>,
    pub modifier: Option<&'a str>,
}

/// A key to look up: a plain (complete) key, or a localized one.
pub enum Key<'a> {
    String(&'a str),
    Localized(LocalizedKey<'a>),
}

/// `key[tag]`.
pub open spec fn suffixed(key: Seq<char>, tag: Seq<char>) -> Seq<char> {
    key + seq!['['] + tag + seq![']']
}

/// The keys tried for a localized lookup, best match first: `lang_COUNTRY@MODIFIER` (with
/// both), `lang_COUNTRY` (with a country), `lang@MODIFIER` (with a modifier), `lang`, and
/// the base key.
pub open spec fn candidates(k: LocalizedKey) -> Seq<Seq<char>> {
    let key = k.key@;
    let lang = k.lang@;
    let both = match (k.country, k.modifier) {
        (Some(c), Some(m)) => seq![suffixed(key, lang + seq!['_'] + c@ + seq!['@'] + m@)],
        _ => Seq::empty(),
    };
    let country = match k.country {
        Some(c) => seq![suffixed(key, lang + seq!['_'] + c@)],
        None => Seq::empty(),
    };
    let modifier = match k.modifier {
        Some(m) => seq![suffixed(key, lang + seq!['@'] + m@)],
        None => Seq::empty(),
    };
    both + country + modifier + seq![suffixed(key, lang), key]
}

/// The keys tried for a lookup by `k`, in order.
pub open spec fn key_candidates(k: Key) -> Seq<Seq<char>> {
    match k {
        Key::String(s) => seq![s@],
        Key::Localized(l) => candidates(l),
    }
}

pub open spec fn strings_view(v: Seq<String>) -> Seq<Seq<char>> {
    v.map_values(|s: String| s@)
}

/// `key[tag]`, where `tag` is `lang`, then `sep` and `part` for each pair of `rest`.
fn suffixed_key(key: &str, lang: &str, rest: &Vec<(char, &str)>) -> (r: String)
    ensures
        r@ == suffixed(key@, lang@ + tag_rest(rest@)),
{
    let mut s = key.to_owned();
    push_char(&mut s, '[');
    s.append(lang);
    let mut i: usize = 0;
    while i < rest.len()
        invariant
            i <= rest@.len(),
            s@ == key@ + seq!['['] + lang@ + tag_rest(rest@.take(i as int)),
        decreases rest@.len() - i,
    {
        let ghost prev = s@;
        push_char(&mut s, rest[i].0);
        s.append(rest[i].1);
        proof {
            assert(rest@.take(i + 1).drop_last() == rest@.take(i as int));
            assert(s@ =~= key@ + seq!['['] + lang@ + tag_rest(rest@.take(i + 1)));
        }
        i = i + 1;
    }
    assert(rest@.take(rest@.len() as int) == rest@);
    push_char(&mut s, ']');
    assert(s@ =~= suffixed(key@, lang@ + tag_rest(rest@)));
    s
}

/// Each separator followed by its part, in order.
pub open spec fn tag_rest(rest: Seq<(char, &str)>) -> Seq<char>
    decreases rest.len(),
{
    if rest.len() == 0 {
        Seq::empty()
    } else {
        tag_rest(rest.drop_last()) + seq![rest.last().0] + rest.last().1@
    }
}

impl<'a> LocalizedKey<'a> {
    /// The candidate keys, best match first.
    pub fn matches(&self) -> (r: Vec<String>)
        ensures
            strings_view(r@) == candidates(*self),
    {
        let mut out: Vec<String> = Vec::new();
        if let (Some(country), Some(modifier)) = (self.country, self.modifier) {
            let rest = vec![('_', country), ('@', modifier)];
            let k = suffixed_key(self.key, self.lang, &rest);
            proof {
                assert(rest@.drop_last().drop_last() =~= Seq::<(char, &str)>::empty());
                assert(tag_rest(rest@.drop_last().drop_last()) == Seq::<char>::empty());
                assert(rest@.drop_last().last() == ('_', country));
                assert(rest@.last() == ('@', modifier));
                assert(tag_rest(rest@.drop_last()) =~= seq!['_'] + country@);
                assert(tag_rest(rest@) =~= seq!['_'] + country@ + seq!['@'] + modifier@);
                assert(self.lang@ + tag_rest(rest@) =~= self.lang@ + seq!['_'] + country@ + seq!['@'] + modifier@);
            }
            out.push(k);
        }
        if let Some(country) = self.country {
            let rest = vec![('_', country)];
            let k = suffixed_key(self.key, self.lang, &rest);
            proof {
                assert(rest@.drop_last() =~= Seq::<(char, &str)>::empty());
                assert(tag_rest(rest@.drop_last()) == Seq::<char>::empty());
                assert(rest@.last() == ('_', country));
                assert(self.lang@ + tag_rest(rest@) =~= self.lang@ + seq!['_'] + country@);
            }
            out.push(k);
        }
        if let Some(modifier) = self.modifier {
            let rest = vec![('@', modifier)];
            let k = suffixed_key(self.key, self.lang, &rest);
            proof {
                assert(rest@.drop_last() =~= Seq::<(char, &str)>::empty());
                assert(tag_rest(rest@.drop_last()) == Seq::<char>::empty());
                assert(rest@.last() == ('@', modifier));
                assert(self.lang@ + tag_rest(rest@) =~= self.lang@ + seq!['@'] + modifier@);
            }
            out.push(k);
        }
        let rest: Vec<(char, &str)> = Vec::new();
        let k = suffixed_key(self.key, self.lang, &rest);
        assert(self.lang@ + tag_rest(rest@) =~= self.lang@);
        out.push(k);
        out.push(self.key.to_owned());
        assert(strings_view(out@) =~= candidates(*self));
        out
    }
}

impl<'a> From<&'a str> for Key<'a> {
    fn from(value: &'a str) -> (r: Key<'a>)
        ensures
            r == Key::String(value),
    {
        Key::String(value)
    }
}

impl<'a> FromSpecImpl<&'a str> for Key<'a> {
    open spec fn obeys_from_spec() -> bool {
        true
    }

    open spec fn from_spec(v: &'a str) -> Key<'a> {
        Key::String(v)
    }
}

impl<'a> From<LocalizedKey<'a>> for Key<'a> {
    fn from(value: LocalizedKey<'a>) -> (r: Key<'a>)
        ensures
            r == Key::Localized(value),
    {
        Key::Localized(value)
    }
}

impl<'a> FromSpecImpl<LocalizedKey<'a>> for Key<'a> {
    open spec fn obeys_from_spec() -> bool {
        true
    }

    open spec fn from_spec(v: LocalizedKey<'a>) -> Key<'a> {
        Key::Localized(v)
    }
}

impl<'a> Key<'a> {
    /// The keys tried for this lookup, best match first.
    pub fn candidate_keys(&self) -> (r: Vec<String>)
        ensures
            strings_view(r@) == key_candidates(*self),
    {
        match self {
            Key::String(s) => {
                let v = vec![(*s).to_owned()];
                assert(strings_view(v@) =~= seq![s@]);
                v
            },
            Key::Localized(l) => l.matches(),
        }
    }
}

} // verus!
