//! A generic document model for parsed YAML content.

use vstd::prelude::*;

verus! {

/// A parsed document: a tree of scalars, sequences and mappings.
///
/// A mapping keeps its pairs in document order, and the parser rejects
/// duplicate keys, so a key occurs at most once. Numbers are kept as their
/// literal text: nothing in this crate reads them as numbers. A `Tagged`
/// node wraps a value that carried an explicit YAML tag; the accessors
/// below look through tags on values, as the parser's own accessors do,
/// while a tagged key never equals a plain string key.
#[derive(Debug)]
pub enum Yaml {
    Null,
    Bool(bool),
    Num(String),
    Str(String),
    List(Vec<Yaml>),
    Dict(Vec<(Yaml, Yaml)>),
    Tagged(Box<Yaml>),
}

/// The value under any chain of tags.
pub open spec fn untag(v: Yaml) -> Yaml
    decreases v,
{
    match v {
        Yaml::Tagged(inner) => untag(*inner),
        _ => v,
    }
}

/// The value under the first plain string key equal to `key`, if any.
pub open spec fn dict_get(pairs: Seq<(Yaml, Yaml)>, key: Seq<char>) -> Option<Yaml>
    decreases pairs.len(),
{
    if pairs.len() == 0 {
        None
    } else if pairs[0].0 matches Yaml::Str(s) && s@ == key {
        Some(pairs[0].1)
    } else {
        dict_get(pairs.drop_first(), key)
    }
}

/// The string form of a mapping key, if it has one: keys may be tagged
/// strings, and any other shape of key has no string form.
pub open spec fn str_of_key(k: Yaml) -> Option<Seq<char>> {
    match untag(k) {
        Yaml::Str(s) => Some(s@),
        _ => None,
    }
}

/// `true` iff `s` holds exactly the characters of `other`.
fn string_eq_str(s: &String, other: &str) -> (r: bool)
    ensures
        r == (s@ == other@),
{
    let o: String = other.to_owned();
    s.eq(&o)
}

impl Yaml {
    /// The value under any chain of tags, by reference.
    pub fn untag_ref(&self) -> (r: &Yaml)
        ensures
            *r == untag(*self),
            !(*r is Tagged),
        decreases *self,
    {
        match self {
            Yaml::Tagged(inner) => inner.untag_ref(),
            _ => self,
        }
    }
}

/// The value under the first plain string key equal to `key`, if any.
pub fn dict_lookup<'a>(pairs: &'a Vec<(Yaml, Yaml)>, key: &str) -> (r: Option<&'a Yaml>)
    ensures
        match r {
            Some(v) => dict_get(pairs@, key@) == Some(*v),
            None => dict_get(pairs@, key@) is None,
        },
{
    let mut i: usize = 0;
    proof {
        assert(pairs@.skip(0) =~= pairs@);
    }
    while i < pairs.len()
        invariant
            i <= pairs.len(),
            dict_get(pairs@, key@) == dict_get(pairs@.skip(i as int), key@),
        decreases pairs.len() - i,
    {
        let hit = match &pairs[i].0 {
            Yaml::Str(s) => string_eq_str(s, key),
            _ => false,
        };
        proof {
            assert(pairs@.skip(i as int)[0] == pairs@[i as int]);
            assert(pairs@.skip(i as int).drop_first() =~= pairs@.skip(i as int + 1));
        }
        if hit {
            return Some(&pairs[i].1);
        }
        i += 1;
    }
    proof {
        assert(pairs@.skip(pairs@.len() as int).len() == 0);
    }
    None
}

} // verus!
