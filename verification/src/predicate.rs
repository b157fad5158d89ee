//! Predicates over the tag list of an element.

use vstd::prelude::*;
use crate::model::Tag;
use crate::pattern::{Pattern, regex_finds};
use crate::strmap::{StringMap, str_eq};

verus! {

/// Whether `k` is one of `keys`.
pub open spec fn key_in(keys: Seq<String>, k: Seq<char>) -> bool {
    exists|i: int| 0 <= i < keys.len() && #[trigger] keys[i]@ == k
}

/// Whether `k` is one of `keys`.
pub fn contains_key(keys: &Vec<String>, k: &str) -> (b: bool)
    ensures
        b == key_in(keys@, k@),
{
    let n = keys.len();
    let mut i: usize = 0;
    while i < n
        invariant
            n == keys@.len(),
            i <= n,
            forall|j: int| 0 <= j < i ==> #[trigger] keys@[j]@ != k@,
        decreases n - i,
    {
        if str_eq(keys[i].as_str(), k) {
            return true;
        }
        i = i + 1;
    }
    false
}

/// Some tag has one of `keys` as key.
pub open spec fn has_one_of_keys(keys: Seq<String>, tags: Seq<Tag>) -> bool {
    exists|i: int| 0 <= i < tags.len() && key_in(keys, #[trigger] tags[i].k@)
}

/// No tag has one of `keys` as key.
pub open spec fn has_none_of_keys(keys: Seq<String>, tags: Seq<Tag>) -> bool {
    forall|i: int| 0 <= i < tags.len() ==> !key_in(keys, #[trigger] tags[i].k@)
}

/// Some tag equals one of the key/value pairs `key_values`.
pub open spec fn has_key_value(key_values: Map<Seq<char>, Seq<char>>, tags: Seq<Tag>) -> bool {
    exists|i: int|
        0 <= i < tags.len() && key_values.contains_key(#[trigger] tags[i].k@) && key_values[tags[i].k@] == tags[i].v@
}

/// Every tag's key matches `pattern`.
pub open spec fn all_keys_match(pattern: Seq<char>, tags: Seq<Tag>) -> bool {
    forall|i: int| 0 <= i < tags.len() ==> regex_finds(pattern, #[trigger] tags[i].k@)
}

/// Holds when an element has at least one of the given tag keys.
pub struct HasOneOfTagKeysPredicate {
    pub keys: Vec<String>,
}

impl HasOneOfTagKeysPredicate {
    pub fn test(&self, tags: &Vec<Tag>) -> (b: bool)
        ensures
            b == has_one_of_keys(self.keys@, tags@),
    {
        let n = tags.len();
        let mut i: usize = 0;
        while i < n
            invariant
                n == tags@.len(),
                i <= n,
                forall|j: int| 0 <= j < i ==> !key_in(self.keys@, #[trigger] tags@[j].k@),
            decreases n - i,
        {
            if contains_key(&self.keys, tags[i].k.as_str()) {
                return true;
            }
            i = i + 1;
        }
        false
    }
}

/// Holds when an element has a tag with one of the given key/value pairs.
pub struct HasTagKeyValuePredicate {
    pub key_values: StringMap,
}

impl HasTagKeyValuePredicate {
    /// Whether some tag's key is a key of the map with that tag's value.
    pub fn test(&self, tags: &Vec<Tag>) -> (b: bool)
        ensures
            b == has_key_value(self.key_values.view(), tags@),
    {
        let n = tags.len();
        let mut i: usize = 0;
        while i < n
            invariant
                n == tags@.len(),
                i <= n,
                forall|a: int| 0 <= a < i ==> !(self.key_values.view().contains_key(#[trigger] tags@[a].k@)
                    && self.key_values.view()[tags@[a].k@] == tags@[a].v@),
            decreases n - i,
        {
            match self.key_values.get(tags[i].k.as_str()) {
                Some(match_value) => {
                    if str_eq(tags[i].v.as_str(), match_value.as_str()) {
                        assert(self.key_values.view().contains_key(tags@[i as int].k@));
                        return true;
                    }
                },
                None => {},
            }
            i = i + 1;
        }
        false
    }
}

/// Holds when an element has none of the given tag keys.
pub struct HasNoneOfTagKeysPredicate {
    pub keys: Vec<String>,
}

impl HasNoneOfTagKeysPredicate {
    pub fn test(&self, tags: &Vec<Tag>) -> (b: bool)
        ensures
            b == has_none_of_keys(self.keys@, tags@),
    {
        let n = tags.len();
        let mut i: usize = 0;
        while i < n
            invariant
                n == tags@.len(),
                i <= n,
                forall|j: int| 0 <= j < i ==> !key_in(self.keys@, #[trigger] tags@[j].k@),
            decreases n - i,
        {
            if contains_key(&self.keys, tags[i].k.as_str()) {
                return false;
            }
            i = i + 1;
        }
        true
    }
}

/// Holds when every tag key of an element matches a regular expression.
pub struct HasOnlyMatchingTagsPredicate {
    pub key_regex: Pattern,
}

impl HasOnlyMatchingTagsPredicate {
    pub fn test(&self, tags: &Vec<Tag>) -> (b: bool)
        ensures
            b == all_keys_match(self.key_regex.source_view(), tags@),
    {
        let n = tags.len();
        let mut i: usize = 0;
        while i < n
            invariant
                n == tags@.len(),
                i <= n,
                forall|j: int| 0 <= j < i ==> regex_finds(self.key_regex.source_view(), #[trigger] tags@[j].k@),
            decreases n - i,
        {
            if !self.key_regex.is_match(tags[i].k.as_str()) {
                return false;
            }
            i = i + 1;
        }
        true
    }
}

} // verus!
