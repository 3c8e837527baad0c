use hc_cli::customize::{customize_project, customize_steps, DISPLAY_NAME};
use hc_cli::manifest::{transform_manifest, ManifestDocument, TransformError, MANIFEST_PATH};
use hc_cli::steps::TransformStep;
use hc_cli::tailwind::{
    setup_tailwind, styling_files, styling_steps, BUILD_CONFIG, BUILD_CONFIG_PATH,
    POSTPROCESS_CONFIG, POSTPROCESS_CONFIG_PATH, STYLESHEET_PATH, STYLESHEET_SOURCE,
};
use serde_json::Value;

fn set(key: &str, value: &str) -> TransformStep {
    TransformStep::SetField { key: key.to_owned(), value: value.to_owned() }
}

fn remove(key: &str) -> TransformStep {
    TransformStep::RemoveField { key: key.to_owned() }
}

fn insert(section: &str, key: &str, value: &str) -> TransformStep {
    TransformStep::InsertEntry {
        section: section.to_owned(),
        key: key.to_owned(),
        value: value.to_owned(),
    }
}

fn remove_from(section: &str, key: &str) -> TransformStep {
    TransformStep::RemoveEntry { section: section.to_owned(), key: key.to_owned() }
}

fn rewrite(text: &str, steps: Vec<TransformStep>) -> String {
    transform_manifest(text, &steps).unwrap()
}

#[test]
fn customize_minimal_manifest() {
    let out = customize_project("{\"name\": \"copenhagen_theme\", \"scripts\": {}}").unwrap();
    assert_eq!(out, "{\n  \"name\": \"HML v1.0.0\",\n  \"scripts\": {}\n}");
    let doc: Value = serde_json::from_str(&out).unwrap();
    assert_eq!(doc["name"], Value::from("HML v1.0.0"));
    assert!(doc.get("repository").is_none());
    assert!(doc["scripts"].get("prepare").is_none());
}

#[test]
fn customize_removes_repository_and_prepare() {
    let text = "{\"name\":\"copenhagen_theme\",\"version\":\"4.2.0\",\"repository\":{\"type\":\"git\",\"url\":\"x\"},\"scripts\":{\"start\":\"rollup\",\"prepare\":\"husky install\",\"test\":\"jest\"},\"private\":true}";
    let out = customize_project(text).unwrap();
    assert_eq!(
        out,
        "{\n  \"name\": \"HML v1.0.0\",\n  \"version\": \"4.2.0\",\n  \"scripts\": {\n    \"start\": \"rollup\",\n    \"test\": \"jest\"\n  },\n  \"private\": true\n}"
    );
}

#[test]
fn customize_adds_a_missing_name_at_the_end() {
    let out = customize_project("{\"version\": \"1.0.0\"}").unwrap();
    assert_eq!(out, "{\n  \"version\": \"1.0.0\",\n  \"name\": \"HML v1.0.0\"\n}");
}

#[test]
fn customize_steps_are_the_three_fixed_steps() {
    assert_eq!(DISPLAY_NAME, "HML v1.0.0");
    assert_eq!(MANIFEST_PATH, "package.json");
    assert_eq!(
        customize_steps(),
        vec![set("name", "HML v1.0.0"), remove("repository"), remove_from("scripts", "prepare")]
    );
}

#[test]
fn customize_rejects_text_that_is_no_document() {
    assert_eq!(customize_project("{\"name\": "), Err(TransformError::Malformed));
    assert_eq!(customize_project(""), Err(TransformError::Malformed));
    assert_eq!(customize_project("{} trailing"), Err(TransformError::Malformed));
}

#[test]
fn manifest_that_is_no_object_is_left_as_it_is() {
    assert_eq!(customize_project("[1, 2]").unwrap(), "[\n  1,\n  2\n]");
    assert_eq!(customize_project("\"text\"").unwrap(), "\"text\"");
    assert_eq!(setup_tailwind("null").unwrap().manifest, "null");
}

#[test]
fn set_field_replaces_in_place() {
    let out = rewrite("{\"a\": 1, \"b\": 2, \"c\": 3}", vec![set("b", "two")]);
    assert_eq!(out, "{\n  \"a\": 1,\n  \"b\": \"two\",\n  \"c\": 3\n}");
}

#[test]
fn set_field_appends_a_new_key() {
    let out = rewrite("{\"a\": 1}", vec![set("b", "two")]);
    assert_eq!(out, "{\n  \"a\": 1,\n  \"b\": \"two\"\n}");
}

#[test]
fn remove_field_keeps_the_order_of_the_rest() {
    let out = rewrite("{\"a\": 1, \"b\": 2, \"c\": 3, \"d\": 4}", vec![remove("b")]);
    assert_eq!(out, "{\n  \"a\": 1,\n  \"c\": 3,\n  \"d\": 4\n}");
}

#[test]
fn remove_field_that_is_absent_changes_nothing() {
    let out = rewrite("{\"a\": 1}", vec![remove("b")]);
    assert_eq!(out, "{\n  \"a\": 1\n}");
}

#[test]
fn insert_entry_sets_a_key_of_the_section() {
    let out = rewrite(
        "{\"scripts\": {\"start\": \"old\", \"test\": \"jest\"}, \"x\": 1}",
        vec![insert("scripts", "start", "new"), insert("scripts", "build", "make")],
    );
    assert_eq!(
        out,
        "{\n  \"scripts\": {\n    \"start\": \"new\",\n    \"test\": \"jest\",\n    \"build\": \"make\"\n  },\n  \"x\": 1\n}"
    );
}

#[test]
fn insert_entry_without_the_section_changes_nothing() {
    let out = rewrite("{\"a\": 1}", vec![insert("scripts", "start", "new")]);
    assert_eq!(out, "{\n  \"a\": 1\n}");
}

#[test]
fn insert_entry_into_a_section_that_is_no_object_changes_nothing() {
    let out = rewrite("{\"scripts\": \"none\"}", vec![insert("scripts", "start", "new")]);
    assert_eq!(out, "{\n  \"scripts\": \"none\"\n}");
    let out = rewrite("{\"scripts\": [1]}", vec![remove_from("scripts", "start")]);
    assert_eq!(out, "{\n  \"scripts\": [\n    1\n  ]\n}");
}

#[test]
fn remove_entry_removes_a_key_of_the_section() {
    let out = rewrite(
        "{\"scripts\": {\"a\": \"1\", \"prepare\": \"husky\", \"b\": \"2\"}}",
        vec![remove_from("scripts", "prepare")],
    );
    assert_eq!(out, "{\n  \"scripts\": {\n    \"a\": \"1\",\n    \"b\": \"2\"\n  }\n}");
}

#[test]
fn nested_values_pass_through_untouched() {
    let text = "{\"a\": {\"deep\": [1, 2.5, null, true, {\"k\": \"v\"}]}, \"n\": -3, \"s\": \"x\\ny\"}";
    let out = rewrite(text, vec![set("name", "p")]);
    let before: Value = serde_json::from_str(text).unwrap();
    let after: Value = serde_json::from_str(&out).unwrap();
    assert_eq!(after["a"], before["a"]);
    assert_eq!(after["n"], before["n"]);
    assert_eq!(after["s"], before["s"]);
    assert_eq!(after["name"], Value::from("p"));
}

#[test]
fn each_step_applied_twice_is_the_step_applied_once() {
    let text = "{\"name\": \"t\", \"repository\": \"r\", \"scripts\": {\"prepare\": \"p\", \"start\": \"s\"}, \"devDependencies\": {}}";
    let steps = vec![
        set("name", "HML v1.0.0"),
        set("title", "new"),
        remove("repository"),
        remove("absent"),
        insert("scripts", "start", "again"),
        insert("scripts", "build", "b"),
        insert("absent", "k", "v"),
        remove_from("scripts", "prepare"),
        remove_from("scripts", "absent"),
    ];
    for step in steps {
        let once = ManifestDocument::parse(text).unwrap().apply(&step).render().unwrap();
        let twice =
            ManifestDocument::parse(text).unwrap().apply(&step).apply(&step).render().unwrap();
        assert_eq!(once, twice);
    }
}

#[test]
fn customization_applied_twice_is_customization_applied_once() {
    let text = "{\"name\": \"t\", \"repository\": \"r\", \"scripts\": {\"prepare\": \"p\"}}";
    let once = customize_project(text).unwrap();
    let twice = customize_project(&once).unwrap();
    assert_eq!(once, twice);
}

#[test]
fn styling_applied_twice_is_styling_applied_once() {
    let text = "{\"scripts\": {\"start\": \"s\", \"watch:css\": \"old\"}, \"devDependencies\": {\"postcss\": \"^7\"}}";
    let once = setup_tailwind(text).unwrap().manifest;
    let twice = setup_tailwind(&once).unwrap().manifest;
    assert_eq!(once, twice);
}

#[test]
fn steps_apply_in_order() {
    let out = rewrite("{}", vec![set("a", "1"), set("b", "2"), set("a", "3"), remove("b")]);
    assert_eq!(out, "{\n  \"a\": \"3\"\n}");
    let doc = ManifestDocument::parse("{}").unwrap();
    let steps = vec![set("a", "1"), set("b", "2")];
    assert_eq!(doc.apply_all(&steps).render().unwrap(), "{\n  \"a\": \"1\",\n  \"b\": \"2\"\n}");
}

#[test]
fn a_key_that_the_text_gives_twice_is_held_once() {
    let out = rewrite("{\"a\": 1, \"b\": 2, \"a\": 3}", vec![remove("b")]);
    assert_eq!(out, "{\n  \"a\": 3\n}");
}

#[test]
fn parse_reports_malformed_text() {
    assert!(matches!(ManifestDocument::parse("{"), Err(TransformError::Malformed)));
    assert!(ManifestDocument::parse("{}").is_ok());
}

#[test]
fn styling_adds_scripts_and_dependencies() {
    let text = "{\"name\": \"HML v1.0.0\", \"scripts\": {\"start\": \"zcli themes:preview\", \"build\": \"rollup -c\"}, \"devDependencies\": {\"rollup\": \"^3.0.0\", \"postcss\": \"^7.0.0\"}}";
    let plan = setup_tailwind(text).unwrap();
    assert_eq!(
        plan.manifest,
        "{\n  \"name\": \"HML v1.0.0\",\n  \"scripts\": {\n    \"start\": \"concurrently -k -r \\\"rollup -c -w\\\" \\\"npm run watch:css\\\" \\\"wait-on script.js style.css && zcli themes:preview\\\"\",\n    \"build\": \"rollup -c\",\n    \"build:css\": \"postcss styles/tailwind.css -o assets/tailwind.css\",\n    \"watch:css\": \"postcss styles/tailwind.css -o assets/tailwind.css --watch\"\n  },\n  \"devDependencies\": {\n    \"rollup\": \"^3.0.0\",\n    \"postcss\": \"^8.5.3\",\n    \"autoprefixer\": \"^10.4.21\",\n    \"postcss-cli\": \"^11.0.1\",\n    \"tailwindcss\": \"^3.4.17\"\n  }\n}"
    );
}

#[test]
fn styling_adds_no_section_of_its_own() {
    let plan = setup_tailwind("{\"name\": \"p\"}").unwrap();
    assert_eq!(plan.manifest, "{\n  \"name\": \"p\"\n}");
    assert_eq!(plan.files.len(), 3);
}

#[test]
fn styling_rejects_text_that_is_no_document() {
    assert_eq!(setup_tailwind("not json"), Err(TransformError::Malformed));
}

#[test]
fn styling_steps_are_seven_insertions() {
    let steps = styling_steps();
    assert_eq!(steps.len(), 7);
    assert_eq!(
        steps[0],
        insert("scripts", "build:css", "postcss styles/tailwind.css -o assets/tailwind.css")
    );
    assert_eq!(
        steps[2],
        insert(
            "scripts",
            "start",
            "concurrently -k -r \"rollup -c -w\" \"npm run watch:css\" \"wait-on script.js style.css && zcli themes:preview\""
        )
    );
    assert_eq!(steps[3], insert("devDependencies", "autoprefixer", "^10.4.21"));
    assert_eq!(steps[6], insert("devDependencies", "tailwindcss", "^3.4.17"));
}

#[test]
fn styling_generates_three_files() {
    let files = styling_files();
    assert_eq!(files.len(), 3);
    assert_eq!(files[0].path, "styles/tailwind.css");
    assert_eq!(files[1].path, "tailwind.config.js");
    assert_eq!(files[2].path, "postcss.config.cjs");
    assert_eq!(files[0].path, STYLESHEET_PATH);
    assert_eq!(files[1].path, BUILD_CONFIG_PATH);
    assert_eq!(files[2].path, POSTPROCESS_CONFIG_PATH);
    assert_eq!(files[0].content, STYLESHEET_SOURCE);
    assert_eq!(files[1].content, BUILD_CONFIG);
    assert_eq!(files[2].content, POSTPROCESS_CONFIG);
    assert!(files[0].content.contains("@tailwind base;"));
    assert!(files[0].content.contains("@apply border border-red-500;"));
    assert!(files[1].content.contains("\"./templates/**/*.hbs\","));
    assert!(files[2].content.contains("\"@fullhuman/postcss-purgecss\""));
    assert_eq!(files[0].content.len(), 208);
    assert_eq!(files[1].content.len(), 527);
    assert_eq!(files[2].content.len(), 459);
}
