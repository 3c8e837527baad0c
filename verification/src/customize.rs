//! Making a fresh copy of the theme the project's own: the manifest gets the
//! project's display name and loses what refers to the theme's repository.

use vstd::prelude::*;
use crate::json::{has_key, member, well_formed, without, Fields, Json};
use crate::manifest::{rewritten, transform_manifest, TransformError};
use crate::members::{lemma_without, lemma_without_twice};
use crate::steps::{
    is_settled, lemma_member_well_formed, lemma_settled_steps, lemma_steps_lookup,
    lemma_steps_on_object, looked_up, step_views, steps_fields, steps_result, Step,
    TransformStep,
};

verus! {

/// The display name that every new project gets.
pub const DISPLAY_NAME: &'static str = "HML v1.0.0";

/// The manifest steps of customization: set the display name, remove the
/// reference to the repository, remove the `prepare` script.
pub open spec fn customize_plan() -> Seq<Step> {
    seq![
        Step::SetField { key: "name"@, value: DISPLAY_NAME@ },
        Step::RemoveField { key: "repository"@ },
        Step::RemoveEntry { section: "scripts"@, key: "prepare"@ },
    ]
}

/// The manifest steps of customization.
pub fn customize_steps() -> (steps: Vec<TransformStep>)
    ensures
        step_views(steps@) == customize_plan(),
{
    let mut steps: Vec<TransformStep> = Vec::new();
    steps.push(TransformStep::SetField { key: "name".to_owned(), value: DISPLAY_NAME.to_owned() });
    steps.push(TransformStep::RemoveField { key: "repository".to_owned() });
    steps.push(
        TransformStep::RemoveEntry { section: "scripts".to_owned(), key: "prepare".to_owned() },
    );
    assert(step_views(steps@) =~= customize_plan());
    steps
}

/// Customizes the manifest text of a fresh project.
pub fn customize_project(manifest: &str) -> (result: Result<String, TransformError>)
    ensures
        match result {
            Ok(out) => rewritten(manifest@, customize_plan()) == Some(out@),
            Err(error) => {
                &&& error == TransformError::Malformed
                &&& rewritten(manifest@, customize_plan()) is None
            },
        },
{
    let steps = customize_steps();
    transform_manifest(manifest, &steps)
}

/// The keys that customization writes are three different keys.
proof fn lemma_keys_differ()
    ensures
        "name"@ != "repository"@,
        "name"@ != "scripts"@,
        "repository"@ != "scripts"@,
{
    reveal_strlit("name");
    reveal_strlit("repository");
    reveal_strlit("scripts");
    assert("name"@.len() == 4);
    assert("repository"@.len() == 10);
    assert("scripts"@.len() == 7);
}

/// A customized manifest is an object as before. It has the display name
/// as its `name` and no `repository`. Its `scripts` are what they were,
/// without `prepare` where they are an object. Every other member is what it
/// was.
pub proof fn lemma_customized(fields: Fields, key: Seq<char>)
    requires
        well_formed(Json::Object(fields)),
    ensures
        steps_result(Json::Object(fields), customize_plan()) matches Json::Object(after) && {
            &&& member(after, "name"@) == Some(Json::Text(DISPLAY_NAME@))
            &&& member(after, "repository"@) is None
            &&& member(after, "scripts"@) == match member(fields, "scripts"@) {
                Some(Json::Object(scripts)) => Some(Json::Object(without(scripts, "prepare"@))),
                other => other,
            }
            &&& member(fields, "scripts"@) matches Some(Json::Object(scripts)) ==> !has_key(
                without(scripts, "prepare"@),
                "prepare"@,
            )
            &&& key != "name"@ && key != "repository"@ && key != "scripts"@ ==> member(after, key)
                == member(fields, key)
        },
{
    let plan = customize_plan();
    lemma_keys_differ();
    lemma_steps_on_object(fields, plan);
    assert(plan.drop_last() =~= seq![plan[0], plan[1]]);
    assert(plan.drop_last().drop_last() =~= seq![plan[0]]);
    assert(plan.drop_last().drop_last().drop_last() =~= Seq::<Step>::empty());
    reveal_with_fuel(looked_up, 4);
    lemma_steps_lookup(fields, plan, "name"@);
    lemma_steps_lookup(fields, plan, "repository"@);
    lemma_steps_lookup(fields, plan, "scripts"@);
    lemma_steps_lookup(fields, plan, key);
    if let Some(Json::Object(scripts)) = member(fields, "scripts"@) {
        lemma_member_well_formed(fields, "scripts"@);
        lemma_without(scripts, "prepare"@);
    }
}

/// Customizing a customized manifest changes nothing.
pub proof fn lemma_customized_once(fields: Fields)
    requires
        well_formed(Json::Object(fields)),
    ensures
        ({
            let once = steps_result(Json::Object(fields), customize_plan());
            steps_result(once, customize_plan()) == once
        }),
{
    let plan = customize_plan();
    let after = steps_fields(fields, plan);
    lemma_steps_on_object(fields, plan);
    lemma_steps_on_object(after, plan);
    lemma_customized(fields, "name"@);
    if let Some(Json::Object(scripts)) = member(fields, "scripts"@) {
        lemma_member_well_formed(fields, "scripts"@);
        lemma_without_twice(scripts, "prepare"@);
    }
    assert forall|i: int| 0 <= i < plan.len() implies is_settled(after, #[trigger] plan[i]) by {}
    lemma_settled_steps(after, plan);
}

} // verus!
