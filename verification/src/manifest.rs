//! The project manifest: reading it, applying steps to it and writing it
//! out.

use vstd::prelude::*;
use crate::json::{
    distinct_keys, from_members, into_members, json_of, members, parse_value, parsed, pretty,
    render_value, text_value, well_formed, Json,
};
use crate::members::{find_key, lemma_key_index, lemma_put, put_entry, remove_entry};
use crate::steps::{
    entry_change, is_entry_step, lemma_step_well_formed, step_fields, step_result, step_views,
    steps_result, written_key, Step, TransformStep,
};

verus! {

/// Where the manifest stands, relative to the project root.
pub const MANIFEST_PATH: &'static str = "package.json";

/// Why a manifest could not be rewritten.
#[derive(Clone, Copy, Debug, PartialEq, Eq, Structural)]
pub enum TransformError {
    /// The manifest file could not be read or written.
    Io,
    /// The manifest is not valid structured data.
    Malformed,
}

/// The text of a manifest after a sequence of steps: the text is read, the
/// steps are applied in order and the result is written out again. `None`
/// where the text is no valid document, or the result cannot be written.
pub open spec fn rewritten(text: Seq<char>, steps: Seq<Step>) -> Option<Seq<char>> {
    match parsed(text) {
        Some(doc) => pretty(steps_result(doc, steps)),
        None => None,
    }
}

/// A project manifest: a JSON document in which no object has a key twice.
pub struct ManifestDocument {
    root: serde_json::Value,
}

impl View for ManifestDocument {
    type V = Json;

    closed spec fn view(&self) -> Json {
        json_of(self.root)
    }
}

impl ManifestDocument {
    #[verifier::type_invariant]
    spec fn no_key_twice(self) -> bool {
        well_formed(json_of(self.root))
    }

    /// Reads a manifest from its text.
    pub fn parse(text: &str) -> (read: Result<ManifestDocument, TransformError>)
        ensures
            match read {
                Ok(doc) => parsed(text@) == Some(doc@) && well_formed(doc@),
                Err(error) => error == TransformError::Malformed && parsed(text@) is None,
            },
    {
        match parse_value(text) {
            Ok(root) => Ok(ManifestDocument { root }),
            Err(_) => Err(TransformError::Malformed),
        }
    }

    /// Writes the manifest out: indented, the members of each object in
    /// document order.
    pub fn render(&self) -> (written: Result<String, TransformError>)
        ensures
            match written {
                Ok(text) => pretty(self@) == Some(text@),
                Err(error) => error == TransformError::Malformed && pretty(self@) is None,
            },
    {
        match render_value(&self.root) {
            Ok(text) => Ok(text),
            Err(_) => Err(TransformError::Malformed),
        }
    }

    /// Applies one step.
    pub fn apply(self, step: &TransformStep) -> (after: ManifestDocument)
        ensures
            after@ == step_result(self@, step@),
            well_formed(after@),
    {
        proof {
            use_type_invariant(&self);
            lemma_step_well_formed(self@, step@);
        }
        match into_members(self.root) {
            Err(other) => ManifestDocument { root: other },
            Ok(mut entries) => {
                apply_to_entries(&mut entries, step);
                ManifestDocument { root: from_members(entries) }
            },
        }
    }

    /// Applies a sequence of steps in order.
    pub fn apply_all(self, steps: &Vec<TransformStep>) -> (after: ManifestDocument)
        ensures
            after@ == steps_result(self@, step_views(steps@)),
            well_formed(after@),
    {
        proof {
            use_type_invariant(&self);
        }
        let ghost before = self@;
        let ghost plan = step_views(steps@);
        let mut doc = self;
        let mut done: usize = 0;
        while done < steps.len()
            invariant
                done <= steps.len(),
                plan == step_views(steps@),
                doc@ == steps_result(before, plan.take(done as int)),
                well_formed(doc@),
            decreases steps.len() - done,
        {
            doc = doc.apply(&steps[done]);
            done += 1;
            assert(plan.take(done as int).drop_last() =~= plan.take(done - 1));
        }
        assert(plan.take(done as int) =~= plan);
        doc
    }
}

/// Applies one step to the members of a manifest.
fn apply_to_entries(entries: &mut Vec<(String, serde_json::Value)>, step: &TransformStep)
    requires
        distinct_keys(members(old(entries)@)),
    ensures
        members(final(entries)@) == step_fields(members(old(entries)@), step@),
        distinct_keys(members(final(entries)@)),
{
    match step {
        TransformStep::SetField { key, value } => {
            put_entry(entries, key.clone(), text_value(value.as_str()));
        },
        TransformStep::RemoveField { key } => {
            remove_entry(entries, key);
        },
        TransformStep::InsertEntry { section, .. } => {
            apply_in_section(entries, section, step);
        },
        TransformStep::RemoveEntry { section, .. } => {
            apply_in_section(entries, section, step);
        },
    }
}

/// Applies an entry step to its section: the section is taken out of the
/// members, changed where it is an object, and put back in its place.
fn apply_in_section(
    entries: &mut Vec<(String, serde_json::Value)>,
    section: &String,
    step: &TransformStep,
)
    requires
        distinct_keys(members(old(entries)@)),
        is_entry_step(step@),
        written_key(step@) == section@,
    ensures
        members(final(entries)@) == step_fields(members(old(entries)@), step@),
        distinct_keys(members(final(entries)@)),
{
    if let Some(at) = find_key(entries, section) {
        proof {
            lemma_key_index(members(entries@), section@, at as int);
        }
        let (name, content) = entries.remove(at);
        match into_members(content) {
            Err(content) => {
                entries.insert(at, (name, content));
                assert(entries@ =~= old(entries)@);
            },
            Ok(mut inner) => {
                apply_to_section(&mut inner, step);
                let content = from_members(inner);
                proof {
                    lemma_put(members(old(entries)@), section@, json_of(content));
                }
                entries.insert(at, (name, content));
                assert(members(entries@) =~= step_fields(members(old(entries)@), step@));
            },
        }
    }
}

/// Applies an entry step to the entries of its section.
fn apply_to_section(inner: &mut Vec<(String, serde_json::Value)>, step: &TransformStep)
    requires
        distinct_keys(members(old(inner)@)),
        is_entry_step(step@),
    ensures
        members(final(inner)@) == entry_change(members(old(inner)@), step@),
        distinct_keys(members(final(inner)@)),
{
    match step {
        TransformStep::InsertEntry { key, value, .. } => {
            put_entry(inner, key.clone(), text_value(value.as_str()));
        },
        TransformStep::RemoveEntry { key, .. } => {
            remove_entry(inner, key);
        },
        _ => {},
    }
}

/// Rewrites the text of a manifest: reads it, applies the steps in order and
/// writes the result out.
pub fn transform_manifest(
    text: &str,
    steps: &Vec<TransformStep>,
) -> (result: Result<String, TransformError>)
    ensures
        match result {
            Ok(out) => rewritten(text@, step_views(steps@)) == Some(out@),
            Err(error) => {
                &&& error == TransformError::Malformed
                &&& rewritten(text@, step_views(steps@)) is None
            },
        },
{
    match ManifestDocument::parse(text) {
        Err(error) => Err(error),
        Ok(doc) => doc.apply_all(steps).render(),
    }
}

} // verus!
