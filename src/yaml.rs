//! A configuration document as a tree of plain values.
use vstd::prelude::*;

use crate::text::str_eq;

verus! {

/// One node of a YAML document.
#[derive(Debug)]
pub enum Yaml {
    /// A floating-point scalar, kept as written.
    Real(String),
    Integer(i64),
    Str(String),
    Boolean(bool),
    Array(Vec<Yaml>),
    /// A mapping, as its entries in document order.
    Hash(Vec<(Yaml, Yaml)>),
    Alias(usize),
    Null,
    BadValue,
}

/// The index of the first entry at or after `i` whose key is the string `key`.
pub open spec fn entry_index(entries: Seq<(Yaml, Yaml)>, key: Seq<char>, i: int) -> Option<int>
    decreases entries.len() - i,
{
    if i < 0 || i >= entries.len() {
        None
    } else if entries[i].0 is Str && entries[i].0->Str_0@ == key {
        Some(i)
    } else {
        entry_index(entries, key, i + 1)
    }
}

/// The value that `doc` maps `key` to, if `doc` is a mapping that has it.
pub open spec fn lookup(doc: Yaml, key: Seq<char>) -> Option<Yaml> {
    match doc {
        Yaml::Hash(entries) => match entry_index(entries@, key, 0) {
            Some(i) => Some(entries@[i].1),
            None => None,
        },
        _ => None,
    }
}

/// The value found under `key` in a value that may itself be absent.
pub open spec fn lookup_in(doc: Option<Yaml>, key: Seq<char>) -> Option<Yaml> {
    match doc {
        Some(d) => lookup(d, key),
        None => None,
    }
}

impl Yaml {
    /// The value this mapping holds under `key`; `None` where it has no such
    /// entry or is no mapping.
    pub fn get(&self, key: &str) -> (r: Option<&Yaml>)
        ensures
            r.is_some() == lookup(*self, key@).is_some(),
            r.is_some() ==> lookup(*self, key@) == Some(*r.unwrap()),
    {
        match self {
            Yaml::Hash(entries) => {
                let mut i: usize = 0;
                while i < entries.len()
                    invariant
                        i <= entries@.len(),
                        *self == Yaml::Hash(*entries),
                        entry_index(entries@, key@, 0) == entry_index(entries@, key@, i as int),
                    decreases entries.len() - i,
                {
                    if let Yaml::Str(k) = &entries[i].0 {
                        if str_eq(k.as_str(), key) {
                            return Some(&entries[i].1);
                        }
                    }
                    i = i + 1;
                }
                None
            },
            _ => None,
        }
    }
}

/// The value under `key` in a value that may itself be absent.
pub fn get_in<'a>(doc: Option<&'a Yaml>, key: &str) -> (r: Option<&'a Yaml>)
    ensures
        r.is_some() == lookup_in(opt_val(doc), key@).is_some(),
        r.is_some() ==> lookup_in(opt_val(doc), key@) == Some(*r.unwrap()),
{
    match doc {
        Some(d) => d.get(key),
        None => None,
    }
}

/// The value behind an optional reference.
pub open spec fn opt_val(doc: Option<&Yaml>) -> Option<Yaml> {
    match doc {
        Some(d) => Some(*d),
        None => None,
    }
}

} // verus!
