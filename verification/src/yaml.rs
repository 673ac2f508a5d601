//! The YAML data model the rules read: a tree of plain values.

use vstd::prelude::*;
use crate::text::string_is;

verus! {

/// One YAML node. Numbers keep their integer value when it fits in `i64`
/// (`None` for floats and for integers outside that range).
#[derive(Debug, PartialEq)]
pub enum YamlValue {
    Null,
    Bool(bool),
    Number(Option<i64>),
    String(String),
    Sequence(Vec<YamlValue>),
    Mapping(Vec<YamlEntry>),
    Tagged(String, Box<YamlValue>),
}

/// One `key: value` pair of a YAML mapping, in document order.
#[derive(Debug, PartialEq)]
pub struct YamlEntry {
    pub key: YamlValue,
    pub value: YamlValue,
}

/// `true` when `v` is the plain (untagged) string `key`.
pub open spec fn is_string_key(v: YamlValue, key: Seq<char>) -> bool {
    v matches YamlValue::String(s) && s@ == key
}

/// Whether `key` names a mapping entry anywhere in `v`.
pub open spec fn spec_contains_key(v: YamlValue, key: Seq<char>) -> bool
    decreases v,
{
    match v {
        YamlValue::Mapping(entries) => exists|i: int|
            0 <= i < entries@.len() && (is_string_key(#[trigger] entries@[i].key, key)
                || spec_contains_key(entries@[i].value, key)),
        YamlValue::Sequence(items) => exists|i: int|
            0 <= i < items@.len() && spec_contains_key(#[trigger] items@[i], key),
        _ => false,
    }
}

/// Whether `key` names a mapping entry anywhere in `v`.
pub fn contains_key(v: &YamlValue, key: &str) -> (r: bool)
    ensures
        r == spec_contains_key(*v, key@),
    decreases v,
{
    match v {
        YamlValue::Mapping(entries) => {
            let mut i: usize = 0;
            while i < entries.len()
                invariant
                    *v == YamlValue::Mapping(*entries),
                    i <= entries@.len(),
                    forall|j: int| 0 <= j < i ==> !(is_string_key(#[trigger] entries@[j].key, key@)
                        || spec_contains_key(entries@[j].value, key@)),
                decreases entries@.len() - i,
            {
                let entry = &entries[i];
                let hit = match &entry.key {
                    YamlValue::String(s) => string_is(s, key),
                    _ => false,
                };
                proof {
                    assert(decreases_to!(*v => v->Mapping_0));
                    assert(decreases_to!(*entries => entries@));
                    assert(decreases_to!(entries@ => entries@[i as int]));
                    assert(decreases_to!(entries@[i as int] => entries@[i as int].value));
                    assert(decreases_to!(*v => entries@[i as int].value));
                }
                if hit || contains_key(&entry.value, key) {
                    assert(is_string_key(entries@[i as int].key, key@)
                        || spec_contains_key(entries@[i as int].value, key@));
                    return true;
                }
                i += 1;
            }
            false
        },
        YamlValue::Sequence(items) => {
            let mut i: usize = 0;
            while i < items.len()
                invariant
                    *v == YamlValue::Sequence(*items),
                    i <= items@.len(),
                    forall|j: int| 0 <= j < i ==> !spec_contains_key(#[trigger] items@[j], key@),
                decreases items@.len() - i,
            {
                proof {
                    assert(decreases_to!(*v => v->Sequence_0));
                    assert(decreases_to!(*items => items@));
                    assert(decreases_to!(items@ => items@[i as int]));
                    assert(decreases_to!(*v => items@[i as int]));
                }
                if contains_key(&items[i], key) {
                    assert(spec_contains_key(items@[i as int], key@));
                    return true;
                }
                i += 1;
            }
            false
        },
        _ => false,
    }
}


/// `v` with any tags peeled off.
pub open spec fn spec_untag(v: YamlValue) -> YamlValue
    decreases v,
{
    match v {
        YamlValue::Tagged(_, inner) => spec_untag(*inner),
        _ => v,
    }
}

/// The boolean a node holds, seen through tags.
pub open spec fn spec_as_bool(v: YamlValue) -> Option<bool> {
    match spec_untag(v) {
        YamlValue::Bool(b) => Some(b),
        _ => None,
    }
}

/// The string a node holds, seen through tags.
pub open spec fn spec_as_str(v: YamlValue) -> Option<Seq<char>> {
    match spec_untag(v) {
        YamlValue::String(s) => Some(s@),
        _ => None,
    }
}

/// The integer a node holds, seen through tags.
pub open spec fn spec_as_i64(v: YamlValue) -> Option<i64> {
    match spec_untag(v) {
        YamlValue::Number(n) => n,
        _ => None,
    }
}

/// The value of the first entry whose key is the plain string `key`.
pub open spec fn spec_mapping_get(entries: Seq<YamlEntry>, key: Seq<char>) -> Option<YamlValue>
    decreases entries.len(),
{
    if entries.len() == 0 {
        None
    } else if is_string_key(entries[0].key, key) {
        Some(entries[0].value)
    } else {
        spec_mapping_get(entries.drop_first(), key)
    }
}

/// Follows `path` through nested mappings, one key per step.
pub open spec fn spec_value_at_path(v: YamlValue, path: Seq<Seq<char>>) -> Option<YamlValue>
    decreases path.len(),
{
    if path.len() == 0 {
        Some(v)
    } else {
        match v {
            YamlValue::Mapping(entries) => match spec_mapping_get(entries@, path[0]) {
                Some(next) => spec_value_at_path(next, path.drop_first()),
                None => None,
            },
            _ => None,
        }
    }
}

/// The list found by following `path` from `v`.
pub open spec fn spec_sequence_at_path(v: YamlValue, path: Seq<Seq<char>>) -> Option<Seq<YamlValue>> {
    match spec_value_at_path(v, path) {
        Some(YamlValue::Sequence(items)) => Some(items@),
        _ => None,
    }
}

/// The boolean found by following `path` from `v`.
pub open spec fn spec_bool_at_path(v: YamlValue, path: Seq<Seq<char>>) -> Option<bool> {
    match spec_value_at_path(v, path) {
        Some(found) => spec_as_bool(found),
        None => None,
    }
}

/// The string found by following `path` from `v`.
pub open spec fn spec_string_at_path(v: YamlValue, path: Seq<Seq<char>>) -> Option<Seq<char>> {
    match spec_value_at_path(v, path) {
        Some(found) => spec_as_str(found),
        None => None,
    }
}

/// The integer found by following `path` from `v`.
pub open spec fn spec_integer_at_path(v: YamlValue, path: Seq<Seq<char>>) -> Option<i64> {
    match spec_value_at_path(v, path) {
        Some(found) => spec_as_i64(found),
        None => None,
    }
}

/// The views of the path segments.
pub open spec fn path_view(path: Seq<&str>) -> Seq<Seq<char>> {
    path.map_values(|segment: &str| segment@)
}

/// Whether some mapping entry anywhere in `v` has the key `key` and the boolean `expected`.
pub open spec fn spec_key_has_bool_value(v: YamlValue, key: Seq<char>, expected: bool) -> bool
    decreases v,
{
    match v {
        YamlValue::Mapping(entries) => exists|i: int|
            0 <= i < entries@.len() && ((is_string_key(#[trigger] entries@[i].key, key)
                && entries@[i].value == YamlValue::Bool(expected))
                || spec_key_has_bool_value(entries@[i].value, key, expected)),
        YamlValue::Sequence(items) => exists|i: int|
            0 <= i < items@.len() && spec_key_has_bool_value(#[trigger] items@[i], key, expected),
        _ => false,
    }
}

/// The node under any tags.
pub fn untag(v: &YamlValue) -> (r: &YamlValue)
    ensures
        *r == spec_untag(*v),
    decreases v,
{
    match v {
        YamlValue::Tagged(_, inner) => {
            proof {
                assert(decreases_to!(*v => v->Tagged_1));
            }
            untag(inner)
        },
        _ => v,
    }
}

/// The boolean a node holds, seen through tags.
pub fn as_bool(v: &YamlValue) -> (r: Option<bool>)
    ensures
        r == spec_as_bool(*v),
{
    match untag(v) {
        YamlValue::Bool(b) => Some(*b),
        _ => None,
    }
}

/// The string a node holds, seen through tags.
pub fn as_str(v: &YamlValue) -> (r: Option<&String>)
    ensures
        r is Some <==> spec_as_str(*v) is Some,
        r matches Some(s) ==> s@ == spec_as_str(*v)->0,
{
    match untag(v) {
        YamlValue::String(s) => Some(s),
        _ => None,
    }
}

/// The integer a node holds, seen through tags.
pub fn as_i64(v: &YamlValue) -> (r: Option<i64>)
    ensures
        r == spec_as_i64(*v),
{
    match untag(v) {
        YamlValue::Number(n) => *n,
        _ => None,
    }
}

/// `true` when `v` is the plain string `key`.
pub fn key_is(v: &YamlValue, key: &str) -> (r: bool)
    ensures
        r == is_string_key(*v, key@),
{
    match v {
        YamlValue::String(s) => string_is(s, key),
        _ => false,
    }
}

/// The value of the first entry whose key is the plain string `key`.
pub fn mapping_get<'a>(entries: &'a Vec<YamlEntry>, key: &str) -> (r: Option<&'a YamlValue>)
    ensures
        r matches Some(found) ==> spec_mapping_get(entries@, key@) == Some(*found),
        r is None ==> spec_mapping_get(entries@, key@) is None,
{
    let mut i: usize = 0;
    assert(entries@.skip(0) == entries@);
    while i < entries.len()
        invariant
            i <= entries@.len(),
            spec_mapping_get(entries@, key@) == spec_mapping_get(entries@.skip(i as int), key@),
        decreases entries@.len() - i,
    {
        assert(entries@.skip(i as int).drop_first() == entries@.skip(i + 1));
        if key_is(&entries[i].key, key) {
            return Some(&entries[i].value);
        }
        i += 1;
    }
    None
}

/// The node found by following the mapping keys of `path` from `v`.
pub fn value_at_path<'a>(v: &'a YamlValue, path: &[&str]) -> (r: Option<&'a YamlValue>)
    ensures
        r matches Some(found) ==> spec_value_at_path(*v, path_view(path@)) == Some(*found),
        r is None ==> spec_value_at_path(*v, path_view(path@)) is None,
{
    let mut current: &YamlValue = v;
    let mut i: usize = 0;
    assert(path_view(path@).skip(0) == path_view(path@));
    while i < path.len()
        invariant
            i <= path@.len(),
            spec_value_at_path(*v, path_view(path@))
                == spec_value_at_path(*current, path_view(path@).skip(i as int)),
        decreases path@.len() - i,
    {
        assert(path_view(path@).skip(i as int).drop_first() == path_view(path@).skip(i + 1));
        assert(path_view(path@).skip(i as int)[0] == path[i as int]@);
        match current {
            YamlValue::Mapping(entries) => match mapping_get(entries, path[i]) {
                Some(next) => {
                    current = next;
                },
                None => {
                    return None;
                },
            },
            _ => {
                return None;
            },
        }
        i += 1;
    }
    assert(path_view(path@).skip(i as int).len() == 0);
    Some(current)
}

/// The list found by following `path` from `v`.
pub fn sequence_at_path<'a>(v: &'a YamlValue, path: &[&str]) -> (r: Option<&'a Vec<YamlValue>>)
    ensures
        r is Some <==> spec_sequence_at_path(*v, path_view(path@)) is Some,
        r matches Some(items) ==> spec_sequence_at_path(*v, path_view(path@)) == Some(items@),
{
    match value_at_path(v, path) {
        Some(YamlValue::Sequence(items)) => Some(items),
        _ => None,
    }
}

/// The boolean found by following `path` from `v`.
pub fn bool_at_path(v: &YamlValue, path: &[&str]) -> (r: Option<bool>)
    ensures
        r == spec_bool_at_path(*v, path_view(path@)),
{
    match value_at_path(v, path) {
        Some(found) => as_bool(found),
        None => None,
    }
}

/// The string found by following `path` from `v`.
pub fn string_at_path<'a>(v: &'a YamlValue, path: &[&str]) -> (r: Option<&'a String>)
    ensures
        r is Some <==> spec_string_at_path(*v, path_view(path@)) is Some,
        r matches Some(s) ==> s@ == spec_string_at_path(*v, path_view(path@))->0,
{
    match value_at_path(v, path) {
        Some(found) => as_str(found),
        None => None,
    }
}

/// The integer found by following `path` from `v`.
pub fn integer_at_path(v: &YamlValue, path: &[&str]) -> (r: Option<i64>)
    ensures
        r == spec_integer_at_path(*v, path_view(path@)),
{
    match value_at_path(v, path) {
        Some(found) => as_i64(found),
        None => None,
    }
}


/// Whether some entry anywhere in `v` has the key `key` holding the boolean `expected`.
pub fn key_has_bool_value(v: &YamlValue, key: &str, expected: bool) -> (r: bool)
    ensures
        r == spec_key_has_bool_value(*v, key@, expected),
    decreases v,
{
    match v {
        YamlValue::Mapping(entries) => {
            let mut i: usize = 0;
            while i < entries.len()
                invariant
                    *v == YamlValue::Mapping(*entries),
                    i <= entries@.len(),
                    forall|j: int| 0 <= j < i ==> !((is_string_key(#[trigger] entries@[j].key, key@)
                        && entries@[j].value == YamlValue::Bool(expected))
                        || spec_key_has_bool_value(entries@[j].value, key@, expected)),
                decreases entries@.len() - i,
            {
                let entry = &entries[i];
                let direct = key_is(&entry.key, key) && match &entry.value {
                    YamlValue::Bool(flag) => *flag == expected,
                    _ => false,
                };
                proof {
                    assert(decreases_to!(*v => v->Mapping_0));
                    assert(decreases_to!(*entries => entries@));
                    assert(decreases_to!(entries@ => entries@[i as int]));
                    assert(decreases_to!(entries@[i as int] => entries@[i as int].value));
                }
                if direct || key_has_bool_value(&entry.value, key, expected) {
                    assert((is_string_key(entries@[i as int].key, key@)
                        && entries@[i as int].value == YamlValue::Bool(expected))
                        || spec_key_has_bool_value(entries@[i as int].value, key@, expected));
                    return true;
                }
                i += 1;
            }
            false
        },
        YamlValue::Sequence(items) => {
            let mut i: usize = 0;
            while i < items.len()
                invariant
                    *v == YamlValue::Sequence(*items),
                    i <= items@.len(),
                    forall|j: int| 0 <= j < i ==> !spec_key_has_bool_value(#[trigger] items@[j], key@, expected),
                decreases items@.len() - i,
            {
                proof {
                    assert(decreases_to!(*v => v->Sequence_0));
                    assert(decreases_to!(*items => items@));
                    assert(decreases_to!(items@ => items@[i as int]));
                }
                if key_has_bool_value(&items[i], key, expected) {
                    assert(spec_key_has_bool_value(items@[i as int], key@, expected));
                    return true;
                }
                i += 1;
            }
            false
        },
        _ => false,
    }
}

/// A key that holds a given boolean somewhere in a document is a key that the
/// document contains.
pub proof fn lemma_bool_value_implies_key(v: YamlValue, key: Seq<char>, expected: bool)
    requires
        spec_key_has_bool_value(v, key, expected),
    ensures
        spec_contains_key(v, key),
    decreases v,
{
    match v {
        YamlValue::Mapping(entries) => {
            let i = choose|i: int|
                0 <= i < entries@.len() && ((is_string_key(#[trigger] entries@[i].key, key)
                    && entries@[i].value == YamlValue::Bool(expected))
                    || spec_key_has_bool_value(entries@[i].value, key, expected));
            if !is_string_key(entries@[i].key, key) {
                assert(decreases_to!(v => v->Mapping_0));
                assert(decreases_to!(entries => entries@));
                assert(decreases_to!(entries@ => entries@[i]));
                assert(decreases_to!(entries@[i] => entries@[i].value));
                lemma_bool_value_implies_key(entries@[i].value, key, expected);
            }
            assert(is_string_key(entries@[i].key, key) || spec_contains_key(entries@[i].value, key));
        },
        YamlValue::Sequence(items) => {
            let i = choose|i: int|
                0 <= i < items@.len() && spec_key_has_bool_value(#[trigger] items@[i], key, expected);
            assert(decreases_to!(v => v->Sequence_0));
            assert(decreases_to!(items => items@));
            assert(decreases_to!(items@ => items@[i]));
            lemma_bool_value_implies_key(items@[i], key, expected);
        },
        _ => {},
    }
}

/// No two entries of a mapping have the same plain-string key.
pub open spec fn string_keys_unique(entries: Seq<YamlEntry>) -> bool {
    forall|i: int, j: int, k: Seq<char>| 0 <= i < j < entries.len()
        && #[trigger] is_string_key(entries[i].key, k) ==> !#[trigger] is_string_key(entries[j].key, k)
}

/// Every mapping in `v`, at any depth, has unique plain-string keys, as the
/// mappings a YAML parser builds do.
pub open spec fn unique_keys(v: YamlValue) -> bool
    decreases v,
{
    match v {
        YamlValue::Mapping(entries) => string_keys_unique(entries@)
            && forall|i: int| 0 <= i < entries@.len() ==> unique_keys(#[trigger] entries@[i].value),
        YamlValue::Sequence(items) => forall|i: int| 0 <= i < items@.len() ==> unique_keys(#[trigger] items@[i]),
        YamlValue::Tagged(_, inner) => unique_keys(*inner),
        _ => true,
    }
}

/// In a mapping whose keys are unique, looking a key up finds the one entry
/// that has it, wherever that entry stands.
pub proof fn lemma_mapping_get_unique(entries: Seq<YamlEntry>, key: Seq<char>, i: int)
    requires
        string_keys_unique(entries),
        0 <= i < entries.len(),
        is_string_key(entries[i].key, key),
    ensures
        spec_mapping_get(entries, key) == Some(entries[i].value),
    decreases i,
{
    if i > 0 {
        assert(!is_string_key(entries[0].key, key));
        let rest = entries.drop_first();
        assert(rest[i - 1] == entries[i]);
        assert forall|a: int, b: int, k: Seq<char>| 0 <= a < b < rest.len()
            && #[trigger] is_string_key(rest[a].key, k) implies !#[trigger] is_string_key(rest[b].key, k) by {
            assert(rest[a] == entries[a + 1] && rest[b] == entries[b + 1]);
        }
        lemma_mapping_get_unique(rest, key, i - 1);
    }
}

} // verus!
