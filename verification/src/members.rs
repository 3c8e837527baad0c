//! Facts about the members of a JSON object, and the operations on a member
//! list that the manifest steps are made of.

use vstd::prelude::*;
use crate::json::{
    distinct_keys, has_key, json_of, key_at, key_index, member, members, put, without, Fields,
    Json,
};

verus! {

/// With distinct keys a key stands at one position only.
pub proof fn lemma_key_index(fields: Fields, key: Seq<char>, at: int)
    requires
        distinct_keys(fields),
        key_at(fields, key, at),
    ensures
        has_key(fields, key),
        key_index(fields, key) == at,
        member(fields, key) == Some(fields[at].1),
{
    let chosen = key_index(fields, key);
    assert(key_at(fields, key, chosen));
    if chosen < at {
        assert(fields[chosen].0 != fields[at].0);
    } else if at < chosen {
        assert(fields[at].0 != fields[chosen].0);
    }
}

/// Setting a key keeps the keys distinct.
pub proof fn lemma_put_distinct(fields: Fields, key: Seq<char>, value: Json)
    requires
        distinct_keys(fields),
    ensures
        distinct_keys(put(fields, key, value)),
{
    let after = put(fields, key, value);
    if has_key(fields, key) {
        assert(key_at(fields, key, key_index(fields, key)));
    } else {
        assert forall|i: int, j: int| 0 <= i < j < after.len() implies after[i].0 != after[j].0 by {
            if j == fields.len() {
                assert(!key_at(fields, key, i));
            }
        }
    }
}

/// Setting a key does not touch another key.
pub proof fn lemma_put_other(fields: Fields, key: Seq<char>, value: Json, other: Seq<char>)
    requires
        distinct_keys(fields),
        other != key,
    ensures
        has_key(put(fields, key, value), other) == has_key(fields, other),
        member(put(fields, key, value), other) == member(fields, other),
{
    let after = put(fields, key, value);
    lemma_put_distinct(fields, key, value);
    if has_key(fields, key) {
        assert(key_at(fields, key, key_index(fields, key)));
    }
    if has_key(fields, other) {
        let at = key_index(fields, other);
        assert(key_at(fields, other, at));
        assert(key_at(after, other, at));
        lemma_key_index(after, other, at);
    } else if has_key(after, other) {
        let at = key_index(after, other);
        assert(key_at(after, other, at));
        assert(key_at(fields, other, at));
    }
}

/// Setting a key keeps the keys distinct, makes the key present with the new
/// value and leaves every other key as it was.
pub proof fn lemma_put(fields: Fields, key: Seq<char>, value: Json)
    requires
        distinct_keys(fields),
    ensures
        distinct_keys(put(fields, key, value)),
        member(put(fields, key, value), key) == Some(value),
        forall|other: Seq<char>|
            other != key ==> #[trigger] member(put(fields, key, value), other) == member(
                fields,
                other,
            ),
{
    let after = put(fields, key, value);
    lemma_put_distinct(fields, key, value);
    let at = if has_key(fields, key) {
        key_index(fields, key)
    } else {
        fields.len() as int
    };
    if has_key(fields, key) {
        assert(key_at(fields, key, at));
    }
    assert(key_at(after, key, at));
    lemma_key_index(after, key, at);
    assert forall|other: Seq<char>| other != key implies #[trigger] member(after, other) == member(
        fields,
        other,
    ) by {
        lemma_put_other(fields, key, value, other);
    }
}

/// Removing a key keeps the keys distinct, makes the key absent and leaves
/// every other key as it was.
pub proof fn lemma_without(fields: Fields, key: Seq<char>)
    requires
        distinct_keys(fields),
    ensures
        distinct_keys(without(fields, key)),
        !has_key(without(fields, key), key),
        forall|other: Seq<char>|
            other != key ==> #[trigger] member(without(fields, key), other) == member(
                fields,
                other,
            ),
{
    let after = without(fields, key);
    if has_key(fields, key) {
        let gone = key_index(fields, key);
        assert(key_at(fields, key, gone));
        assert forall|i: int| 0 <= i < after.len() implies after[i] == fields[if i < gone {
            i
        } else {
            i + 1
        }] by {}
        assert forall|i: int, j: int| 0 <= i < j < after.len() implies after[i].0 != after[j].0 by {
            let a = if i < gone {
                i
            } else {
                i + 1
            };
            let b = if j < gone {
                j
            } else {
                j + 1
            };
            assert(fields[a].0 != fields[b].0);
        }
        if has_key(after, key) {
            let at = key_index(after, key);
            assert(key_at(after, key, at));
            let from = if at < gone {
                at
            } else {
                at + 1
            };
            assert(key_at(fields, key, from));
            lemma_key_index(fields, key, from);
        }
        assert forall|other: Seq<char>| other != key implies #[trigger] member(after, other)
            == member(fields, other) by {
            if has_key(fields, other) {
                let at = key_index(fields, other);
                assert(key_at(fields, other, at));
                let to = if at < gone {
                    at
                } else {
                    at - 1
                };
                assert(key_at(after, other, to));
                lemma_key_index(after, other, to);
            } else if has_key(after, other) {
                let at = key_index(after, other);
                assert(key_at(after, other, at));
                assert(key_at(fields, other, if at < gone {
                    at
                } else {
                    at + 1
                }));
            }
        }
    }
}

/// Setting a key twice to one value is setting it once.
pub proof fn lemma_put_twice(fields: Fields, key: Seq<char>, value: Json)
    requires
        distinct_keys(fields),
    ensures
        put(put(fields, key, value), key, value) == put(fields, key, value),
{
    let once = put(fields, key, value);
    lemma_put(fields, key, value);
    let at = if has_key(fields, key) {
        key_index(fields, key)
    } else {
        fields.len() as int
    };
    if has_key(fields, key) {
        assert(key_at(fields, key, at));
    }
    assert(key_at(once, key, at));
    lemma_key_index(once, key, at);
    assert(put(once, key, value) =~= once);
}

/// Setting a key to the value that it holds changes nothing.
pub proof fn lemma_put_same(fields: Fields, key: Seq<char>, value: Json)
    requires
        member(fields, key) == Some(value),
    ensures
        put(fields, key, value) == fields,
{
    let at = key_index(fields, key);
    assert(key_at(fields, key, at));
    assert(put(fields, key, value) =~= fields);
}

/// Removing a key twice is removing it once.
pub proof fn lemma_without_twice(fields: Fields, key: Seq<char>)
    requires
        distinct_keys(fields),
    ensures
        without(without(fields, key), key) == without(fields, key),
{
    lemma_without(fields, key);
}

/// Finds the entry with the key `key`.
pub fn find_key(entries: &Vec<(String, serde_json::Value)>, key: &String) -> (found: Option<usize>)
    ensures
        match found {
            Some(at) => key_at(members(entries@), key@, at as int),
            None => !has_key(members(entries@), key@),
        },
{
    let mut at: usize = 0;
    while at < entries.len()
        invariant
            at <= entries.len(),
            forall|j: int| 0 <= j < at ==> members(entries@)[j].0 != key@,
        decreases entries.len() - at,
    {
        if entries[at].0 == *key {
            return Some(at);
        }
        at += 1;
    }
    None
}

/// Sets `key` to `value`: in place where the key is present, at the end
/// where it is not.
pub fn put_entry(
    entries: &mut Vec<(String, serde_json::Value)>,
    key: String,
    value: serde_json::Value,
)
    requires
        distinct_keys(members(old(entries)@)),
    ensures
        members(final(entries)@) == put(members(old(entries)@), key@, json_of(value)),
        distinct_keys(members(final(entries)@)),
{
    proof {
        lemma_put(members(entries@), key@, json_of(value));
    }
    match find_key(entries, &key) {
        Some(at) => {
            proof {
                lemma_key_index(members(entries@), key@, at as int);
            }
            entries.set(at, (key, value));
            assert(members(entries@) =~= put(members(old(entries)@), key@, json_of(value)));
        },
        None => {
            entries.push((key, value));
            assert(members(entries@) =~= put(members(old(entries)@), key@, json_of(value)));
        },
    }
}

/// Removes the entry with the key `key`, if there is one; the entries behind
/// it move up.
pub fn remove_entry(entries: &mut Vec<(String, serde_json::Value)>, key: &String)
    requires
        distinct_keys(members(old(entries)@)),
    ensures
        members(final(entries)@) == without(members(old(entries)@), key@),
        distinct_keys(members(final(entries)@)),
{
    proof {
        lemma_without(members(entries@), key@);
    }
    match find_key(entries, key) {
        Some(at) => {
            proof {
                lemma_key_index(members(entries@), key@, at as int);
            }
            entries.remove(at);
            assert(members(entries@) =~= without(members(old(entries)@), key@));
        },
        None => {},
    }
}

} // verus!
