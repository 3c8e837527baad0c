//! Grafting the stylesheet build into a project: the manifest entries, the
//! generated files and the link in the document head.

use vstd::prelude::*;
use vstd::string::StringSliceAdditionalSpecFns;
use crate::bytes::{occurs, occurs_at};
use crate::json::{distinct_keys, member, put, well_formed, Fields, Json};
use crate::manifest::{rewritten, transform_manifest, TransformError};
use crate::members::{lemma_put, lemma_put_same};
use crate::steps::{
    is_settled, lemma_member_well_formed, lemma_settled_steps, lemma_steps_lookup,
    lemma_steps_on_object, looked_up, step_views, steps_fields, steps_result, Step,
    TransformStep,
};
use crate::template::{
    content_view, inserted_after_anchor, lemma_patched_once, patch, patch_outcome,
    patched_content, view_of, PatchOutcome, PatchResult,
};

verus! {

/// Where the stylesheet source is written, relative to the project root.
pub const STYLESHEET_PATH: &'static str = "styles/tailwind.css";

/// Where the build-tool configuration is written.
pub const BUILD_CONFIG_PATH: &'static str = "tailwind.config.js";

/// Where the post-processing configuration is written.
pub const POSTPROCESS_CONFIG_PATH: &'static str = "postcss.config.cjs";

/// The template that links the built stylesheet.
pub const DOCUMENT_HEAD_PATH: &'static str = "templates/document_head.hbs";

/// A document head that holds this text links the stylesheet already.
pub const STYLESHEET_MARKER: &'static str = "tailwind.css";

/// The link to the built stylesheet.
pub const STYLESHEET_LINK: &'static str =
    r#"<link rel="stylesheet" href="{{asset 'tailwind.css'}}" />"#;

/// The tag of the document head behind which the link goes.
pub const VIEWPORT_TAG: &'static str =
    r#"<meta content="width=device-width, initial-scale=1.0" name="viewport" />"#;

/// The stylesheet source.
pub const STYLESHEET_SOURCE: &'static str = r#"
        @tailwind base;
        @tailwind components;
        @tailwind utilities;

        @layer utilities {
          .debug-border {
            @apply border border-red-500;
          }
        }
      "#;

/// The build-tool configuration.
pub const BUILD_CONFIG: &'static str = r#"
      /* eslint-disable no-undef */
      /* eslint-disable @typescript-eslint/no-var-requires */
      /** @type {import('tailwindcss').Config} */
            const defaultTheme = require("tailwindcss/defaultTheme");
            module.exports = {
              content: [
                "./templates/**/*.hbs",
                "./src/**/*.{js,ts}",
                "./src/modules/**/*.tsx",
              ],
              theme: {
                extend: {},
              },
              plugins: [],
            }
      "#;

/// The post-processing configuration.
pub const POSTPROCESS_CONFIG: &'static str = r#"
      module.exports = {
        plugins: {
          tailwindcss: {},
          autoprefixer: {},
          ...(process.env.NODE_ENV === "production"
            ? {
                "@fullhuman/postcss-purgecss": {
                  content: ["./templates/**/*.hbs"],
                  defaultExtractor: (content) =>
                    content.match(/[\w-/:]+(?<!:)/g) || [],
                },
              }
            : {}),
        },
        };
    "#;

/// The script that builds the stylesheet.
pub const BUILD_CSS_SCRIPT: &'static str = "postcss styles/tailwind.css -o assets/tailwind.css";

/// The script that rebuilds the stylesheet whenever its sources change.
pub const WATCH_CSS_SCRIPT: &'static str =
    "postcss styles/tailwind.css -o assets/tailwind.css --watch";

/// The script that starts the preview together with both watchers.
pub const START_SCRIPT: &'static str = "concurrently -k -r \"rollup -c -w\" \"npm run watch:css\" \
\"wait-on script.js style.css && zcli themes:preview\"";

/// A file that styling integration writes, with its path relative to the
/// project root.
#[derive(Clone, Debug, PartialEq, Eq)]
pub struct GeneratedFile {
    pub path: String,
    pub content: String,
}

/// What styling integration writes: the rewritten manifest and the generated
/// files, in the order in which they are written.
#[derive(Clone, Debug, PartialEq, Eq)]
pub struct StylingPlan {
    pub manifest: String,
    pub files: Vec<GeneratedFile>,
}

/// The manifest steps of styling integration: three build scripts, four
/// development dependencies.
pub open spec fn styling_plan() -> Seq<Step> {
    seq![
        Step::InsertEntry { section: "scripts"@, key: "build:css"@, value: BUILD_CSS_SCRIPT@ },
        Step::InsertEntry { section: "scripts"@, key: "watch:css"@, value: WATCH_CSS_SCRIPT@ },
        Step::InsertEntry { section: "scripts"@, key: "start"@, value: START_SCRIPT@ },
        Step::InsertEntry { section: "devDependencies"@, key: "autoprefixer"@, value: "^10.4.21"@ },
        Step::InsertEntry { section: "devDependencies"@, key: "postcss"@, value: "^8.5.3"@ },
        Step::InsertEntry { section: "devDependencies"@, key: "postcss-cli"@, value: "^11.0.1"@ },
        Step::InsertEntry { section: "devDependencies"@, key: "tailwindcss"@, value: "^3.4.17"@ },
    ]
}

/// Path and content of each generated file.
pub open spec fn generated_files() -> Seq<(Seq<char>, Seq<char>)> {
    seq![
        (STYLESHEET_PATH@, STYLESHEET_SOURCE@),
        (BUILD_CONFIG_PATH@, BUILD_CONFIG@),
        (POSTPROCESS_CONFIG_PATH@, POSTPROCESS_CONFIG@),
    ]
}

/// Path and content of each file of a list.
pub open spec fn file_views(files: Seq<GeneratedFile>) -> Seq<(Seq<char>, Seq<char>)> {
    files.map_values(|file: GeneratedFile| (file.path@, file.content@))
}

fn entry(section: &str, key: &str, value: &str) -> (step: TransformStep)
    ensures
        step@ == (Step::InsertEntry { section: section@, key: key@, value: value@ }),
{
    TransformStep::InsertEntry {
        section: section.to_owned(),
        key: key.to_owned(),
        value: value.to_owned(),
    }
}

/// The manifest steps of styling integration.
pub fn styling_steps() -> (steps: Vec<TransformStep>)
    ensures
        step_views(steps@) == styling_plan(),
{
    let mut steps: Vec<TransformStep> = Vec::new();
    steps.push(entry("scripts", "build:css", BUILD_CSS_SCRIPT));
    steps.push(entry("scripts", "watch:css", WATCH_CSS_SCRIPT));
    steps.push(entry("scripts", "start", START_SCRIPT));
    steps.push(entry("devDependencies", "autoprefixer", "^10.4.21"));
    steps.push(entry("devDependencies", "postcss", "^8.5.3"));
    steps.push(entry("devDependencies", "postcss-cli", "^11.0.1"));
    steps.push(entry("devDependencies", "tailwindcss", "^3.4.17"));
    assert(step_views(steps@) =~= styling_plan());
    steps
}

fn generated(path: &str, content: &str) -> (file: GeneratedFile)
    ensures
        file.path@ == path@,
        file.content@ == content@,
{
    GeneratedFile { path: path.to_owned(), content: content.to_owned() }
}

/// The files that styling integration generates.
pub fn styling_files() -> (files: Vec<GeneratedFile>)
    ensures
        file_views(files@) == generated_files(),
{
    let mut files: Vec<GeneratedFile> = Vec::new();
    files.push(generated(STYLESHEET_PATH, STYLESHEET_SOURCE));
    files.push(generated(BUILD_CONFIG_PATH, BUILD_CONFIG));
    files.push(generated(POSTPROCESS_CONFIG_PATH, POSTPROCESS_CONFIG));
    assert(file_views(files@) =~= generated_files());
    files
}

/// Plans styling integration for a project with the manifest text
/// `manifest`: the manifest gains the build scripts and the development
/// dependencies, and the three generated files are to be written.
pub fn setup_tailwind(manifest: &str) -> (result: Result<StylingPlan, TransformError>)
    ensures
        match result {
            Ok(plan) => {
                &&& rewritten(manifest@, styling_plan()) == Some(plan.manifest@)
                &&& file_views(plan.files@) == generated_files()
            },
            Err(error) => {
                &&& error == TransformError::Malformed
                &&& rewritten(manifest@, styling_plan()) is None
            },
        },
{
    let steps = styling_steps();
    match transform_manifest(manifest, &steps) {
        Ok(text) => Ok(StylingPlan { manifest: text, files: styling_files() }),
        Err(error) => Err(error),
    }
}

/// Links the built stylesheet in a document head: the link goes directly
/// behind the viewport tag, unless the head is absent, holds the marker
/// already or has no viewport tag.
pub fn patch_document_head(head: Option<&[u8]>) -> (result: PatchResult)
    ensures
        result.outcome == patch_outcome(
            content_view(head),
            STYLESHEET_MARKER.spec_bytes(),
            VIEWPORT_TAG.spec_bytes(),
        ),
        view_of(result.content) == patched_content(
            content_view(head),
            STYLESHEET_MARKER.spec_bytes(),
            STYLESHEET_LINK.spec_bytes(),
            VIEWPORT_TAG.spec_bytes(),
        ),
{
    patch(
        head,
        STYLESHEET_MARKER.as_bytes(),
        STYLESHEET_LINK.as_bytes(),
        VIEWPORT_TAG.as_bytes(),
    )
}

/// The scripts of a manifest after styling integration.
pub open spec fn styled_scripts(scripts: Fields) -> Fields {
    let built = put(scripts, "build:css"@, Json::Text(BUILD_CSS_SCRIPT@));
    let watched = put(built, "watch:css"@, Json::Text(WATCH_CSS_SCRIPT@));
    put(watched, "start"@, Json::Text(START_SCRIPT@))
}

/// The development dependencies of a manifest after styling integration.
pub open spec fn styled_dependencies(dependencies: Fields) -> Fields {
    let first = put(dependencies, "autoprefixer"@, Json::Text("^10.4.21"@));
    let second = put(first, "postcss"@, Json::Text("^8.5.3"@));
    let third = put(second, "postcss-cli"@, Json::Text("^11.0.1"@));
    put(third, "tailwindcss"@, Json::Text("^3.4.17"@))
}

/// The keys that styling integration writes differ from each other.
proof fn lemma_keys_differ()
    ensures
        "scripts"@ != "devDependencies"@,
        "build:css"@ != "watch:css"@,
        "build:css"@ != "start"@,
        "watch:css"@ != "start"@,
        "autoprefixer"@ != "postcss"@,
        "autoprefixer"@ != "postcss-cli"@,
        "autoprefixer"@ != "tailwindcss"@,
        "postcss"@ != "postcss-cli"@,
        "postcss"@ != "tailwindcss"@,
        "postcss-cli"@ != "tailwindcss"@,
{
    reveal_strlit("scripts");
    reveal_strlit("devDependencies");
    reveal_strlit("build:css");
    reveal_strlit("watch:css");
    reveal_strlit("start");
    reveal_strlit("autoprefixer");
    reveal_strlit("postcss");
    reveal_strlit("postcss-cli");
    reveal_strlit("tailwindcss");
    assert("scripts"@.len() == 7 && "devDependencies"@.len() == 15);
    assert("build:css"@[0] == 'b' && "watch:css"@[0] == 'w');
    assert("build:css"@.len() == 9 && "watch:css"@.len() == 9 && "start"@.len() == 5);
    assert("autoprefixer"@.len() == 12 && "postcss"@.len() == 7);
    assert("postcss-cli"@.len() == 11 && "tailwindcss"@.len() == 11);
    assert("postcss-cli"@[0] == 'p' && "tailwindcss"@[0] == 't');
}

/// A manifest after styling integration is an object as before. Where its
/// `scripts` are an object, they hold the three build scripts; where its
/// `devDependencies` are an object, they hold the four tools; each section
/// is otherwise what it was, and a section that is absent or no object is
/// left alone. Every other member of the manifest is what it was.
pub proof fn lemma_styled(fields: Fields, key: Seq<char>)
    requires
        well_formed(Json::Object(fields)),
    ensures
        steps_result(Json::Object(fields), styling_plan()) matches Json::Object(after) && {
            &&& member(after, "scripts"@) == match member(fields, "scripts"@) {
                Some(Json::Object(scripts)) => Some(Json::Object(styled_scripts(scripts))),
                other => other,
            }
            &&& member(after, "devDependencies"@) == match member(fields, "devDependencies"@) {
                Some(Json::Object(dependencies)) => Some(
                    Json::Object(styled_dependencies(dependencies)),
                ),
                other => other,
            }
            &&& key != "scripts"@ && key != "devDependencies"@ ==> member(after, key) == member(
                fields,
                key,
            )
        },
{
    let plan = styling_plan();
    lemma_keys_differ();
    lemma_steps_on_object(fields, plan);
    let six = plan.drop_last();
    let five = six.drop_last();
    let four = five.drop_last();
    let three = four.drop_last();
    let two = three.drop_last();
    let one = two.drop_last();
    assert(six =~= seq![plan[0], plan[1], plan[2], plan[3], plan[4], plan[5]]);
    assert(five =~= seq![plan[0], plan[1], plan[2], plan[3], plan[4]]);
    assert(four =~= seq![plan[0], plan[1], plan[2], plan[3]]);
    assert(three =~= seq![plan[0], plan[1], plan[2]]);
    assert(two =~= seq![plan[0], plan[1]]);
    assert(one =~= seq![plan[0]]);
    assert(one.drop_last() =~= Seq::<Step>::empty());
    reveal_with_fuel(looked_up, 8);
    lemma_steps_lookup(fields, plan, "scripts"@);
    lemma_steps_lookup(fields, plan, "devDependencies"@);
    lemma_steps_lookup(fields, plan, key);
}

/// The scripts after styling integration hold the three build scripts, and
/// every other script as it was.
pub proof fn lemma_styled_scripts(scripts: Fields, key: Seq<char>)
    requires
        distinct_keys(scripts),
    ensures
        distinct_keys(styled_scripts(scripts)),
        member(styled_scripts(scripts), "build:css"@) == Some(Json::Text(BUILD_CSS_SCRIPT@)),
        member(styled_scripts(scripts), "watch:css"@) == Some(Json::Text(WATCH_CSS_SCRIPT@)),
        member(styled_scripts(scripts), "start"@) == Some(Json::Text(START_SCRIPT@)),
        key != "build:css"@ && key != "watch:css"@ && key != "start"@ ==> member(
            styled_scripts(scripts),
            key,
        ) == member(scripts, key),
{
    lemma_keys_differ();
    let built = put(scripts, "build:css"@, Json::Text(BUILD_CSS_SCRIPT@));
    let watched = put(built, "watch:css"@, Json::Text(WATCH_CSS_SCRIPT@));
    lemma_put(scripts, "build:css"@, Json::Text(BUILD_CSS_SCRIPT@));
    lemma_put(built, "watch:css"@, Json::Text(WATCH_CSS_SCRIPT@));
    lemma_put(watched, "start"@, Json::Text(START_SCRIPT@));
}

/// The development dependencies after styling integration hold the four
/// tools, and every other dependency as it was.
pub proof fn lemma_styled_dependencies(dependencies: Fields, key: Seq<char>)
    requires
        distinct_keys(dependencies),
    ensures
        distinct_keys(styled_dependencies(dependencies)),
        member(styled_dependencies(dependencies), "autoprefixer"@) == Some(Json::Text("^10.4.21"@)),
        member(styled_dependencies(dependencies), "postcss"@) == Some(Json::Text("^8.5.3"@)),
        member(styled_dependencies(dependencies), "postcss-cli"@) == Some(Json::Text("^11.0.1"@)),
        member(styled_dependencies(dependencies), "tailwindcss"@) == Some(Json::Text("^3.4.17"@)),
        key != "autoprefixer"@ && key != "postcss"@ && key != "postcss-cli"@ && key
            != "tailwindcss"@ ==> member(styled_dependencies(dependencies), key) == member(
            dependencies,
            key,
        ),
{
    lemma_keys_differ();
    let first = put(dependencies, "autoprefixer"@, Json::Text("^10.4.21"@));
    let second = put(first, "postcss"@, Json::Text("^8.5.3"@));
    let third = put(second, "postcss-cli"@, Json::Text("^11.0.1"@));
    lemma_put(dependencies, "autoprefixer"@, Json::Text("^10.4.21"@));
    lemma_put(first, "postcss"@, Json::Text("^8.5.3"@));
    lemma_put(second, "postcss-cli"@, Json::Text("^11.0.1"@));
    lemma_put(third, "tailwindcss"@, Json::Text("^3.4.17"@));
}

/// Styling integration of a manifest that has it already changes nothing.
pub proof fn lemma_styled_once(fields: Fields)
    requires
        well_formed(Json::Object(fields)),
    ensures
        ({
            let once = steps_result(Json::Object(fields), styling_plan());
            steps_result(once, styling_plan()) == once
        }),
{
    let plan = styling_plan();
    let after = steps_fields(fields, plan);
    lemma_keys_differ();
    lemma_steps_on_object(fields, plan);
    lemma_steps_on_object(after, plan);
    lemma_styled(fields, "scripts"@);
    if let Some(Json::Object(scripts)) = member(fields, "scripts"@) {
        let styled = styled_scripts(scripts);
        lemma_member_well_formed(fields, "scripts"@);
        lemma_styled_scripts(scripts, "start"@);
        lemma_put_same(styled, "build:css"@, Json::Text(BUILD_CSS_SCRIPT@));
        lemma_put_same(styled, "watch:css"@, Json::Text(WATCH_CSS_SCRIPT@));
        lemma_put_same(styled, "start"@, Json::Text(START_SCRIPT@));
    }
    if let Some(Json::Object(dependencies)) = member(fields, "devDependencies"@) {
        let styled = styled_dependencies(dependencies);
        lemma_member_well_formed(fields, "devDependencies"@);
        lemma_styled_dependencies(dependencies, "postcss"@);
        lemma_put_same(styled, "autoprefixer"@, Json::Text("^10.4.21"@));
        lemma_put_same(styled, "postcss"@, Json::Text("^8.5.3"@));
        lemma_put_same(styled, "postcss-cli"@, Json::Text("^11.0.1"@));
        lemma_put_same(styled, "tailwindcss"@, Json::Text("^3.4.17"@));
    }
    assert forall|i: int| 0 <= i < plan.len() implies is_settled(after, #[trigger] plan[i]) by {}
    lemma_settled_steps(after, plan);
}

/// A document head without the marker and with the viewport tag is patched
/// once: patching the result again reports that the link is present and
/// changes nothing.
pub proof fn lemma_document_head_patched_once(head: Seq<u8>)
    requires
        !occurs(head, STYLESHEET_MARKER.spec_bytes()),
        occurs(head, VIEWPORT_TAG.spec_bytes()),
    ensures
        ({
            let marker = STYLESHEET_MARKER.spec_bytes();
            let link = STYLESHEET_LINK.spec_bytes();
            let tag = VIEWPORT_TAG.spec_bytes();
            let once = inserted_after_anchor(head, tag, link);
            &&& patch_outcome(Some(head), marker, tag) == PatchOutcome::Patched
            &&& patched_content(Some(head), marker, link, tag) == Some(once)
            &&& patch_outcome(Some(once), marker, tag) == PatchOutcome::AlreadyPresent
            &&& patched_content(Some(once), marker, link, tag) is None
        }),
{
    lemma_link_holds_marker();
    lemma_patched_once(
        head,
        STYLESHEET_MARKER.spec_bytes(),
        STYLESHEET_LINK.spec_bytes(),
        VIEWPORT_TAG.spec_bytes(),
    );
}

/// The link holds the marker: a document head that was patched is not
/// patched again.
pub proof fn lemma_link_holds_marker()
    ensures
        occurs(STYLESHEET_LINK.spec_bytes(), STYLESHEET_MARKER.spec_bytes()),
{
    broadcast use vstd::string::is_ascii_spec_bytes;

    reveal_strlit("tailwind.css");
    reveal_strlit(r#"<link rel="stylesheet" href="{{asset 'tailwind.css'}}" />"#);
    let link = STYLESHEET_LINK;
    let marker = STYLESHEET_MARKER;
    assert(link@.len() == 57);
    assert(marker@.len() == 12);
    assert(vstd::string::is_ascii(link));
    assert(vstd::string::is_ascii(marker));
    assert(link.spec_bytes().subrange(38, 50) =~= marker.spec_bytes());
    assert(occurs_at(link.spec_bytes(), marker.spec_bytes(), 38));
}

} // verus!
