//! OpenStreetMap data as the library reads it: ways with their node references
//! and their `key=value` tags.
use vstd::prelude::*;
use crate::text::str_eq;

verus! {

/// An OSM way: its id, the ids of the nodes it runs through, and its tags.
pub struct OsmWay {
    pub id: i64,
    pub nodes: Vec<i64>,
    pub tags: Vec<(String, String)>,
}

/// The value of the first tag at or after position `i` whose key is `key`.
pub open spec fn tag_from(tags: Seq<(String, String)>, key: Seq<char>, i: int) -> Option<Seq<char>>
    decreases tags.len() - i,
{
    if 0 <= i < tags.len() {
        if tags[i].0@ == key {
            Some(tags[i].1@)
        } else {
            tag_from(tags, key, i + 1)
        }
    } else {
        None
    }
}

/// The value stored under `key` in a tag list (the first pair with that key).
pub open spec fn spec_tag(tags: Seq<(String, String)>, key: Seq<char>) -> Option<Seq<char>> {
    tag_from(tags, key, 0)
}

/// The tag list holds `key=value`.
pub open spec fn tag_is(tags: Seq<(String, String)>, key: Seq<char>, value: Seq<char>) -> bool {
    spec_tag(tags, key) == Some(value)
}

/// The tag list has some value for `key`.
pub open spec fn tag_present(tags: Seq<(String, String)>, key: Seq<char>) -> bool {
    spec_tag(tags, key) is Some
}

/// The characters of an optional string.
pub open spec fn opt_view(o: Option<String>) -> Option<Seq<char>> {
    match o {
        Some(s) => Some(s@),
        None => None,
    }
}

proof fn lemma_tag_from(tags: Seq<(String, String)>, key: Seq<char>, i: int)
    requires
        0 <= i <= tags.len(),
    ensures
        tag_from(tags, key, i) is None <==> forall|j: int| i <= j < tags.len() ==> (#[trigger] tags[j]).0@ != key,
        tag_from(tags, key, i) matches Some(v) ==> exists|k: int|
            i <= k < tags.len() && (#[trigger] tags[k]).0@ == key && tags[k].1@ == v && forall|j: int|
                i <= j < k ==> (#[trigger] tags[j]).0@ != key,
    decreases tags.len() - i,
{
    if i < tags.len() {
        lemma_tag_from(tags, key, i + 1);
        if tags[i].0@ != key {
            if let Some(v) = tag_from(tags, key, i + 1) {
                let k = choose|k: int|
                    i + 1 <= k < tags.len() && (#[trigger] tags[k]).0@ == key && tags[k].1@ == v
                        && forall|j: int| i + 1 <= j < k ==> (#[trigger] tags[j]).0@ != key;
                assert forall|j: int| i <= j < k implies (#[trigger] tags[j]).0@ != key by {
                    if j > i {
                    }
                }
            }
        }
    }
}

/// A tag lookup finds nothing exactly when no pair has the key, and
/// otherwise the value of the first pair that has it.
pub proof fn lemma_tag_lookup(tags: Seq<(String, String)>, key: Seq<char>)
    ensures
        spec_tag(tags, key) is None <==> forall|j: int| 0 <= j < tags.len() ==> (#[trigger] tags[j]).0@ != key,
        spec_tag(tags, key) matches Some(v) ==> exists|k: int|
            0 <= k < tags.len() && (#[trigger] tags[k]).0@ == key && tags[k].1@ == v && forall|j: int|
                0 <= j < k ==> (#[trigger] tags[j]).0@ != key,
        forall|k: int|
            0 <= k < tags.len() && (#[trigger] tags[k]).0@ == key && (forall|j: int|
                0 <= j < k ==> (#[trigger] tags[j]).0@ != key) ==> spec_tag(tags, key) == Some(
                tags[k].1@,
            ),
{
    lemma_tag_from(tags, key, 0);
    assert forall|k: int|
        0 <= k < tags.len() && (#[trigger] tags[k]).0@ == key && (forall|j: int|
            0 <= j < k ==> (#[trigger] tags[j]).0@ != key) implies spec_tag(tags, key) == Some(
        tags[k].1@,
    ) by {
        if let Some(v) = spec_tag(tags, key) {
            let k2 = choose|k2: int|
                0 <= k2 < tags.len() && (#[trigger] tags[k2]).0@ == key && tags[k2].1@ == v
                    && forall|j: int| 0 <= j < k2 ==> (#[trigger] tags[j]).0@ != key;
            if k2 < k {
                assert(tags[k2].0@ != key);
            } else if k < k2 {
                assert(tags[k].0@ != key);
            }
        } else {
            assert(tags[k].0@ != key);
        }
    }
}

/// Position of the first tag whose key is `key`.
fn tag_index(tags: &Vec<(String, String)>, key: &str) -> (r: Option<usize>)
    ensures
        match r {
            Some(i) => i < tags@.len() && spec_tag(tags@, key@) == Some(tags@[i as int].1@),
            None => spec_tag(tags@, key@) is None,
        },
{
    let n = tags.len();
    let mut i: usize = 0;
    while i < n
        invariant
            n == tags@.len(),
            i <= n,
            spec_tag(tags@, key@) == tag_from(tags@, key@, i as int),
        decreases n - i,
    {
        if str_eq(tags[i].0.as_str(), key) {
            return Some(i);
        }
        i = i + 1;
    }
    None
}

/// The value stored under `key`, cloned out of the tag list.
pub fn tag_value(tags: &Vec<(String, String)>, key: &str) -> (r: Option<String>)
    ensures
        opt_view(r) == spec_tag(tags@, key@),
{
    match tag_index(tags, key) {
        Some(i) => Some(tags[i].1.clone()),
        None => None,
    }
}

/// Whether the tag list holds `key=value`.
pub fn has_tag(tags: &Vec<(String, String)>, key: &str, value: &str) -> (r: bool)
    ensures
        r == tag_is(tags@, key@, value@),
{
    match tag_index(tags, key) {
        Some(i) => str_eq(tags[i].1.as_str(), value),
        None => false,
    }
}

/// Whether the tag list has some value for `key`.
pub fn has_key(tags: &Vec<(String, String)>, key: &str) -> (r: bool)
    ensures
        r == tag_present(tags@, key@),
{
    tag_index(tags, key).is_some()
}

} // verus!
