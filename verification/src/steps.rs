//! The steps that rewrite a manifest: what each of them does to a document,
//! and what holds of them.
//!
//! A step looks up a fixed key, at the top level of the manifest or one level
//! down in a named section, and sets or removes it. Where the manifest is no
//! object, or the section is absent or no object, the step changes nothing.

use vstd::prelude::*;
use crate::json::{
    distinct_keys, has_key, key_at, key_index, member, put, well_formed, without, Fields, Json,
};
use crate::members::{
    lemma_put, lemma_put_same, lemma_put_twice, lemma_without, lemma_without_twice,
};

verus! {

/// One rewrite of the manifest, as data.
pub enum Step {
    SetField { key: Seq<char>, value: Seq<char> },
    RemoveField { key: Seq<char> },
    InsertEntry { section: Seq<char>, key: Seq<char>, value: Seq<char> },
    RemoveEntry { section: Seq<char>, key: Seq<char> },
}

/// One rewrite of the manifest.
#[derive(Clone, Debug, PartialEq, Eq)]
pub enum TransformStep {
    /// Sets the top-level field `key` to the string `value`.
    SetField { key: String, value: String },
    /// Removes the top-level field `key`.
    RemoveField { key: String },
    /// Sets `key` to the string `value` in the section `section`.
    InsertEntry { section: String, key: String, value: String },
    /// Removes `key` from the section `section`.
    RemoveEntry { section: String, key: String },
}

impl View for TransformStep {
    type V = Step;

    open spec fn view(&self) -> Step {
        match *self {
            TransformStep::SetField { key, value } => Step::SetField { key: key@, value: value@ },
            TransformStep::RemoveField { key } => Step::RemoveField { key: key@ },
            TransformStep::InsertEntry { section, key, value } => Step::InsertEntry {
                section: section@,
                key: key@,
                value: value@,
            },
            TransformStep::RemoveEntry { section, key } => Step::RemoveEntry {
                section: section@,
                key: key@,
            },
        }
    }
}

/// The steps that a list of `TransformStep` stands for.
pub open spec fn step_views(steps: Seq<TransformStep>) -> Seq<Step> {
    steps.map_values(|step: TransformStep| step@)
}

/// The members of a manifest after one step.
pub open spec fn step_fields(fields: Fields, step: Step) -> Fields {
    match step {
        Step::SetField { key, value } => put(fields, key, Json::Text(value)),
        Step::RemoveField { key } => without(fields, key),
        Step::InsertEntry { section, key, value } => match member(fields, section) {
            Some(Json::Object(inner)) => put(
                fields,
                section,
                Json::Object(put(inner, key, Json::Text(value))),
            ),
            _ => fields,
        },
        Step::RemoveEntry { section, key } => match member(fields, section) {
            Some(Json::Object(inner)) => put(fields, section, Json::Object(without(inner, key))),
            _ => fields,
        },
    }
}

/// A manifest after one step.
pub open spec fn step_result(doc: Json, step: Step) -> Json {
    match doc {
        Json::Object(fields) => Json::Object(step_fields(fields, step)),
        _ => doc,
    }
}

/// The members of a manifest after a sequence of steps, applied in order.
pub open spec fn steps_fields(fields: Fields, steps: Seq<Step>) -> Fields
    decreases steps.len(),
{
    if steps.len() == 0 {
        fields
    } else {
        step_fields(steps_fields(fields, steps.drop_last()), steps.last())
    }
}

/// A manifest after a sequence of steps, applied in order.
pub open spec fn steps_result(doc: Json, steps: Seq<Step>) -> Json
    decreases steps.len(),
{
    if steps.len() == 0 {
        doc
    } else {
        step_result(steps_result(doc, steps.drop_last()), steps.last())
    }
}

/// The top-level key that a step writes: its own key, or its section.
pub open spec fn written_key(step: Step) -> Seq<char> {
    match step {
        Step::SetField { key, .. } => key,
        Step::RemoveField { key } => key,
        Step::InsertEntry { section, .. } => section,
        Step::RemoveEntry { section, .. } => section,
    }
}

/// What a step makes of the key that it writes, given what the key holds.
pub open spec fn written(current: Option<Json>, step: Step) -> Option<Json> {
    match step {
        Step::SetField { value, .. } => Some(Json::Text(value)),
        Step::RemoveField { .. } => None,
        Step::InsertEntry { key, value, .. } => match current {
            Some(Json::Object(inner)) => Some(Json::Object(put(inner, key, Json::Text(value)))),
            _ => current,
        },
        Step::RemoveEntry { key, .. } => match current {
            Some(Json::Object(inner)) => Some(Json::Object(without(inner, key))),
            _ => current,
        },
    }
}

/// What a key holds after a sequence of steps, given what it held: the steps
/// that write the key, each applied to what the one before left.
pub open spec fn looked_up(current: Option<Json>, steps: Seq<Step>, key: Seq<char>) -> Option<Json>
    decreases steps.len(),
{
    if steps.len() == 0 {
        current
    } else {
        let before = looked_up(current, steps.drop_last(), key);
        if written_key(steps.last()) == key {
            written(before, steps.last())
        } else {
            before
        }
    }
}

/// A step that writes an entry of a section.
pub open spec fn is_entry_step(step: Step) -> bool {
    step is InsertEntry || step is RemoveEntry
}

/// The key of the entry that an entry step writes.
pub open spec fn entry_key(step: Step) -> Seq<char>
    recommends
        is_entry_step(step),
{
    match step {
        Step::InsertEntry { key, .. } => key,
        Step::RemoveEntry { key, .. } => key,
        _ => Seq::empty(),
    }
}

/// What an entry step makes of the entries of its section.
pub open spec fn entry_change(inner: Fields, step: Step) -> Fields
    recommends
        is_entry_step(step),
{
    match step {
        Step::InsertEntry { key, value, .. } => put(inner, key, Json::Text(value)),
        Step::RemoveEntry { key, .. } => without(inner, key),
        _ => inner,
    }
}

/// Each member of a well-formed object is well-formed.
pub proof fn lemma_member_well_formed(fields: Fields, key: Seq<char>)
    requires
        well_formed(Json::Object(fields)),
    ensures
        member(fields, key) matches Some(value) ==> well_formed(value),
{
    if has_key(fields, key) {
        assert(key_at(fields, key, key_index(fields, key)));
    }
}

/// Setting a key of a well-formed object to a well-formed value leaves the
/// object well-formed.
pub proof fn lemma_put_well_formed(fields: Fields, key: Seq<char>, value: Json)
    requires
        well_formed(Json::Object(fields)),
        well_formed(value),
    ensures
        well_formed(Json::Object(put(fields, key, value))),
{
    lemma_put(fields, key, value);
    let after = put(fields, key, value);
    assert forall|i: int| 0 <= i < after.len() implies well_formed(#[trigger] after[i].1) by {
        if has_key(fields, key) {
            if i != key_index(fields, key) {
                assert(after[i] == fields[i]);
            }
        } else {
            if i < fields.len() {
                assert(after[i] == fields[i]);
            }
        }
    }
}

/// Removing a key of a well-formed object leaves the object well-formed.
pub proof fn lemma_without_well_formed(fields: Fields, key: Seq<char>)
    requires
        well_formed(Json::Object(fields)),
    ensures
        well_formed(Json::Object(without(fields, key))),
{
    lemma_without(fields, key);
    let after = without(fields, key);
    if has_key(fields, key) {
        let gone = key_index(fields, key);
        assert(key_at(fields, key, gone));
        assert forall|i: int| 0 <= i < after.len() implies well_formed(#[trigger] after[i].1) by {
            if i < gone {
                assert(after[i] == fields[i]);
            } else {
                assert(after[i] == fields[i + 1]);
            }
        }
    }
}

/// A step keeps a well-formed manifest well-formed.
pub proof fn lemma_step_well_formed(doc: Json, step: Step)
    requires
        well_formed(doc),
    ensures
        well_formed(step_result(doc, step)),
{
    if let Json::Object(fields) = doc {
        match step {
            Step::SetField { key, value } => {
                lemma_put_well_formed(fields, key, Json::Text(value));
            },
            Step::RemoveField { key } => {
                lemma_without_well_formed(fields, key);
            },
            Step::InsertEntry { section, key, value } => {
                if let Some(Json::Object(inner)) = member(fields, section) {
                    let inner_after = put(inner, key, Json::Text(value));
                    lemma_member_well_formed(fields, section);
                    lemma_put_well_formed(inner, key, Json::Text(value));
                    lemma_put_well_formed(fields, section, Json::Object(inner_after));
                }
            },
            Step::RemoveEntry { section, key } => {
                if let Some(Json::Object(inner)) = member(fields, section) {
                    lemma_member_well_formed(fields, section);
                    lemma_without_well_formed(inner, key);
                    lemma_put_well_formed(fields, section, Json::Object(without(inner, key)));
                }
            },
        }
    }
}

/// Applying a step twice to a well-formed manifest yields the manifest that
/// applying it once yields.
pub proof fn lemma_step_idempotent(doc: Json, step: Step)
    requires
        well_formed(doc),
    ensures
        step_result(step_result(doc, step), step) == step_result(doc, step),
{
    if let Json::Object(fields) = doc {
        match step {
            Step::SetField { key, value } => {
                lemma_put_twice(fields, key, Json::Text(value));
            },
            Step::RemoveField { key } => {
                lemma_without_twice(fields, key);
            },
            Step::InsertEntry { section, key, value } => {
                if let Some(Json::Object(inner)) = member(fields, section) {
                    let inner_once = put(inner, key, Json::Text(value));
                    lemma_member_well_formed(fields, section);
                    lemma_put(fields, section, Json::Object(inner_once));
                    lemma_put_twice(inner, key, Json::Text(value));
                    lemma_put_twice(fields, section, Json::Object(inner_once));
                }
            },
            Step::RemoveEntry { section, key } => {
                if let Some(Json::Object(inner)) = member(fields, section) {
                    let inner_once = without(inner, key);
                    lemma_member_well_formed(fields, section);
                    lemma_put(fields, section, Json::Object(inner_once));
                    lemma_without_twice(inner, key);
                    lemma_put_twice(fields, section, Json::Object(inner_once));
                }
            },
        }
    }
}

/// A step by what can be looked up after it: the key that it writes holds
/// what the step makes of it, and every other key holds what it held.
pub proof fn lemma_step_lookup(fields: Fields, step: Step, key: Seq<char>)
    requires
        distinct_keys(fields),
    ensures
        distinct_keys(step_fields(fields, step)),
        member(step_fields(fields, step), key) == if key == written_key(step) {
            written(member(fields, key), step)
        } else {
            member(fields, key)
        },
{
    match step {
        Step::SetField { key: own, value } => {
            lemma_put(fields, own, Json::Text(value));
        },
        Step::RemoveField { key: own } => {
            lemma_without(fields, own);
        },
        Step::InsertEntry { section, key: own, value } => {
            if let Some(Json::Object(inner)) = member(fields, section) {
                lemma_put(fields, section, Json::Object(put(inner, own, Json::Text(value))));
            }
        },
        Step::RemoveEntry { section, key: own } => {
            if let Some(Json::Object(inner)) = member(fields, section) {
                lemma_put(fields, section, Json::Object(without(inner, own)));
            }
        },
    }
}

/// An entry step by what can be looked up in its section after it: the
/// entry that it writes holds the new text or is gone, and every other entry
/// holds what it held.
pub proof fn lemma_entry_lookup(inner: Fields, step: Step, key: Seq<char>)
    requires
        distinct_keys(inner),
        is_entry_step(step),
    ensures
        distinct_keys(entry_change(inner, step)),
        member(entry_change(inner, step), key) == if key != entry_key(step) {
            member(inner, key)
        } else if step is InsertEntry {
            Some(Json::Text(step->InsertEntry_value))
        } else {
            None::<Json>
        },
{
    match step {
        Step::InsertEntry { key: own, value, .. } => {
            lemma_put(inner, own, Json::Text(value));
        },
        Step::RemoveEntry { key: own, .. } => {
            lemma_without(inner, own);
        },
        _ => {},
    }
}

/// Steps take an object to an object, member list to member list.
pub proof fn lemma_steps_on_object(fields: Fields, steps: Seq<Step>)
    ensures
        steps_result(Json::Object(fields), steps) == Json::Object(steps_fields(fields, steps)),
    decreases steps.len(),
{
    if steps.len() > 0 {
        lemma_steps_on_object(fields, steps.drop_last());
    }
}

/// A sequence of steps by what can be looked up after it: a key holds what
/// the steps that write it make of it, one after the other; the steps that
/// write other keys do not matter to it, wherever they stand.
pub proof fn lemma_steps_lookup(fields: Fields, steps: Seq<Step>, key: Seq<char>)
    requires
        distinct_keys(fields),
    ensures
        distinct_keys(steps_fields(fields, steps)),
        member(steps_fields(fields, steps), key) == looked_up(member(fields, key), steps, key),
    decreases steps.len(),
{
    if steps.len() > 0 {
        lemma_steps_lookup(fields, steps.drop_last(), key);
        lemma_step_lookup(steps_fields(fields, steps.drop_last()), steps.last(), key);
    }
}

/// A step is settled in a manifest where the key that it writes holds
/// already what the step makes of it.
pub open spec fn is_settled(fields: Fields, step: Step) -> bool {
    written(member(fields, written_key(step)), step) == member(fields, written_key(step))
}

/// A step that is settled changes nothing.
pub proof fn lemma_settled_step(fields: Fields, step: Step)
    requires
        is_settled(fields, step),
    ensures
        step_fields(fields, step) == fields,
{
    match step {
        Step::SetField { key, value } => {
            lemma_put_same(fields, key, Json::Text(value));
        },
        Step::RemoveField { .. } => {},
        Step::InsertEntry { section, key, value } => {
            if let Some(Json::Object(inner)) = member(fields, section) {
                lemma_put_same(fields, section, Json::Object(put(inner, key, Json::Text(value))));
            }
        },
        Step::RemoveEntry { section, key } => {
            if let Some(Json::Object(inner)) = member(fields, section) {
                lemma_put_same(fields, section, Json::Object(without(inner, key)));
            }
        },
    }
}

/// Steps that are all settled change nothing.
pub proof fn lemma_settled_steps(fields: Fields, steps: Seq<Step>)
    requires
        forall|i: int| 0 <= i < steps.len() ==> is_settled(fields, #[trigger] steps[i]),
    ensures
        steps_fields(fields, steps) == fields,
    decreases steps.len(),
{
    if steps.len() > 0 {
        let rest = steps.drop_last();
        assert forall|i: int| 0 <= i < rest.len() implies is_settled(fields, #[trigger] rest[i]) by {
            assert(rest[i] == steps[i]);
        }
        lemma_settled_steps(fields, rest);
        lemma_settled_step(fields, steps.last());
    }
}

/// Two steps that write different top-level keys can be applied in either
/// order: whatever key is looked up afterwards holds the same. (The order of
/// the members may differ, where both steps add a key.)
pub proof fn lemma_steps_commute(fields: Fields, first: Step, second: Step, key: Seq<char>)
    requires
        distinct_keys(fields),
        written_key(first) != written_key(second),
    ensures
        member(step_fields(step_fields(fields, first), second), key) == member(
            step_fields(step_fields(fields, second), first),
            key,
        ),
{
    lemma_step_lookup(fields, first, key);
    lemma_step_lookup(fields, second, key);
    lemma_step_lookup(step_fields(fields, first), second, key);
    lemma_step_lookup(step_fields(fields, second), first, key);
}

/// Two steps that write different entries of one section can be applied in
/// either order: the section is an object afterwards as before, and whatever
/// entry of it is looked up holds the same.
pub proof fn lemma_entry_steps_commute(fields: Fields, first: Step, second: Step, key: Seq<char>)
    requires
        well_formed(Json::Object(fields)),
        is_entry_step(first),
        is_entry_step(second),
        written_key(first) == written_key(second),
        entry_key(first) != entry_key(second),
        member(fields, written_key(first)) matches Some(Json::Object(_)),
    ensures
        ({
            let section = written_key(first);
            let one = member(step_fields(step_fields(fields, first), second), section);
            let other = member(step_fields(step_fields(fields, second), first), section);
            &&& one matches Some(Json::Object(entries))
            &&& other matches Some(Json::Object(others))
            &&& member(entries, key) == member(others, key)
        }),
{
    let section = written_key(first);
    let inner = member(fields, section)->0->Object_0;
    lemma_member_well_formed(fields, section);
    lemma_step_lookup(fields, first, section);
    lemma_step_lookup(fields, second, section);
    lemma_step_lookup(step_fields(fields, first), second, section);
    lemma_step_lookup(step_fields(fields, second), first, section);
    lemma_entry_lookup(inner, first, key);
    lemma_entry_lookup(inner, second, key);
    lemma_entry_lookup(entry_change(inner, first), second, key);
    lemma_entry_lookup(entry_change(inner, second), first, key);
}

} // verus!
