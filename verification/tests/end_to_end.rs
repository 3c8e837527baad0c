use hc_cli::clear::{clear_folders_and_files, TargetKind};
use hc_cli::customize::customize_project;
use hc_cli::extract::{extract, Action, ExtractError};
use hc_cli::fetch::{receive, FetchError, Transfer, THEME_ARCHIVE_URL};
use hc_cli::manifest::{TransformError, MANIFEST_PATH};
use hc_cli::orchestrator::{advance, begin, finished, next_stage, Cause, Outcome, RunState, Stage};
use hc_cli::tailwind::{
    patch_document_head, setup_tailwind, BUILD_CONFIG, BUILD_CONFIG_PATH, DOCUMENT_HEAD_PATH,
    POSTPROCESS_CONFIG, POSTPROCESS_CONFIG_PATH, STYLESHEET_LINK, STYLESHEET_PATH,
    STYLESHEET_SOURCE, VIEWPORT_TAG,
};
use hc_cli::template::PatchOutcome;
use serde_json::Value;
use std::collections::{BTreeMap, BTreeSet};
use std::io::{Cursor, Write};
use zip::write::FileOptions;
use zip::ZipWriter;

/// A project tree held in memory: directories and files by their path below
/// the destination.
struct Tree {
    dirs: BTreeSet<String>,
    files: BTreeMap<String, Vec<u8>>,
}

fn join(path: &[Vec<u8>]) -> String {
    let names: Vec<String> =
        path.iter().map(|name| String::from_utf8(name.clone()).unwrap()).collect();
    names.join("/")
}

impl Tree {
    fn new() -> Tree {
        Tree { dirs: BTreeSet::new(), files: BTreeMap::new() }
    }

    fn create_dirs(&mut self, path: &[Vec<u8>]) {
        for depth in 1..=path.len() {
            self.dirs.insert(join(&path[..depth]));
        }
    }

    fn perform(&mut self, action: Action) {
        match action {
            Action::CreateDir { path } => self.create_dirs(&path),
            Action::WriteFile { path, data } => {
                self.create_dirs(&path[..path.len() - 1]);
                self.files.insert(join(&path), data);
            }
        }
    }

    fn root_names(&self) -> Vec<String> {
        let mut names = BTreeSet::new();
        for path in self.dirs.iter().chain(self.files.keys()) {
            names.insert(path.split('/').next().unwrap().to_owned());
        }
        names.into_iter().collect()
    }

    fn remove(&mut self, name: &str, kind: TargetKind) {
        match kind {
            TargetKind::File => {
                self.files.remove(name).unwrap();
            }
            TargetKind::Folder => {
                let below = format!("{}/", name);
                assert!(self.dirs.remove(name));
                self.dirs.retain(|path| !path.starts_with(&below));
                self.files.retain(|path, _| !path.starts_with(&below));
            }
        }
    }

    fn text(&self, path: &str) -> String {
        String::from_utf8(self.files[path].clone()).unwrap()
    }
}

fn theme_archive() -> Vec<u8> {
    let head = format!("<head>\n  {}\n  <title>Help Center</title>\n</head>\n", VIEWPORT_TAG);
    let entries: Vec<(&str, Option<Vec<u8>>)> = vec![
        ("copenhagen_theme-main/", None),
        ("copenhagen_theme-main/.github/", None),
        ("copenhagen_theme-main/.github/workflows/", None),
        ("copenhagen_theme-main/.github/workflows/ci.yml", Some(b"on: push\n".to_vec())),
        ("copenhagen_theme-main/.npmrc", Some(b"save-exact=true\n".to_vec())),
        ("copenhagen_theme-main/README.md", Some(b"# Copenhagen\n".to_vec())),
        (
            "copenhagen_theme-main/package.json",
            Some(
                b"{\"name\": \"copenhagen_theme\", \"repository\": \"git@github.com:zendesk/copenhagen_theme.git\", \"scripts\": {\"start\": \"zcli themes:preview\", \"prepare\": \"husky install\"}, \"devDependencies\": {\"rollup\": \"^3.29.5\"}}"
                    .to_vec(),
            ),
        ),
        ("copenhagen_theme-main/styles/", None),
        ("copenhagen_theme-main/styles/index.scss", Some(b"@import 'base';\n".to_vec())),
        ("copenhagen_theme-main/templates/document_head.hbs", Some(head.into_bytes())),
        ("copenhagen_theme-main/templates/home_page.hbs", Some(b"<h1>Home</h1>\n".to_vec())),
    ];
    let mut writer = ZipWriter::new(Cursor::new(Vec::new()));
    for (name, content) in entries {
        match content {
            None => writer.add_directory(name, FileOptions::default()).unwrap(),
            Some(bytes) => {
                writer.start_file(name, FileOptions::default()).unwrap();
                writer.write_all(&bytes).unwrap();
            }
        }
    }
    writer.finish().unwrap().into_inner()
}

fn transform(result: Result<String, TransformError>) -> Result<String, Cause> {
    result.map_err(Cause::Transform)
}

/// Performs one stage on the tree, with `transfer` as the answer of the
/// transport.
fn perform(
    stage: Stage,
    tree: &mut Tree,
    fetched: &mut Option<Vec<u8>>,
    transfer: &mut Option<Transfer>,
) -> Result<(), Cause> {
    match stage {
        Stage::Fetch => {
            let source =
                receive(THEME_ARCHIVE_URL, transfer.take().unwrap()).map_err(Cause::Fetch)?;
            assert_eq!(source.origin, THEME_ARCHIVE_URL);
            *fetched = Some(source.bytes);
            Ok(())
        }
        Stage::Extract => {
            let plan = extract(fetched.take().unwrap()).map_err(Cause::Extract)?;
            for action in plan.actions {
                tree.perform(action);
            }
            match plan.failure {
                Some(error) => Err(Cause::Extract(error)),
                None => Ok(()),
            }
        }
        Stage::Customize => {
            for target in clear_folders_and_files(&tree.root_names()) {
                tree.remove(&target.name, target.kind);
            }
            let manifest = transform(customize_project(&tree.text(MANIFEST_PATH)))?;
            tree.files.insert(MANIFEST_PATH.to_owned(), manifest.into_bytes());
            Ok(())
        }
        Stage::Styling => {
            let plan = setup_tailwind(&tree.text(MANIFEST_PATH)).map_err(Cause::Transform)?;
            tree.files.insert(MANIFEST_PATH.to_owned(), plan.manifest.into_bytes());
            for file in plan.files {
                tree.files.insert(file.path, file.content.into_bytes());
            }
            let head = tree.files.get(DOCUMENT_HEAD_PATH).cloned();
            let patched = patch_document_head(head.as_deref());
            if patched.outcome == PatchOutcome::Patched {
                tree.files.insert(DOCUMENT_HEAD_PATH.to_owned(), patched.content.unwrap());
            }
            Ok(())
        }
    }
}

fn run(transfer: Transfer, styling: bool, destination_exists: bool) -> (RunState, Tree, Vec<Stage>) {
    let mut tree = Tree::new();
    let mut fetched = None;
    let mut transfer = Some(transfer);
    let mut performed = Vec::new();
    let mut state = begin(destination_exists);
    while !finished(state) {
        let outcome = match next_stage(state, styling) {
            None => Outcome::Succeeded,
            Some(stage) => {
                performed.push(stage);
                match perform(stage, &mut tree, &mut fetched, &mut transfer) {
                    Ok(()) => Outcome::Succeeded,
                    Err(cause) => Outcome::Failed(cause),
                }
            }
        };
        state = advance(state, styling, outcome);
    }
    (state, tree, performed)
}

fn replied(bytes: Vec<u8>) -> Transfer {
    Transfer::Replied { status: 200, body: Some(bytes) }
}

#[test]
fn run_with_styling_ends_done_with_the_generated_files() {
    let (state, tree, performed) = run(replied(theme_archive()), true, false);
    assert_eq!(state, RunState::Done);
    assert_eq!(performed, vec![Stage::Fetch, Stage::Extract, Stage::Customize, Stage::Styling]);

    assert_eq!(tree.text(STYLESHEET_PATH), STYLESHEET_SOURCE);
    assert_eq!(tree.text(BUILD_CONFIG_PATH), BUILD_CONFIG);
    assert_eq!(tree.text(POSTPROCESS_CONFIG_PATH), POSTPROCESS_CONFIG);

    let manifest: Value = serde_json::from_str(&tree.text("package.json")).unwrap();
    assert_eq!(manifest["name"], Value::from("HML v1.0.0"));
    assert!(manifest.get("repository").is_none());
    assert!(manifest["scripts"].get("prepare").is_none());
    assert_eq!(
        manifest["scripts"]["build:css"],
        Value::from("postcss styles/tailwind.css -o assets/tailwind.css")
    );
    assert_eq!(
        manifest["scripts"]["watch:css"],
        Value::from("postcss styles/tailwind.css -o assets/tailwind.css --watch")
    );
    assert_eq!(
        manifest["scripts"]["start"],
        Value::from("concurrently -k -r \"rollup -c -w\" \"npm run watch:css\" \"wait-on script.js style.css && zcli themes:preview\"")
    );
    assert_eq!(manifest["devDependencies"]["rollup"], Value::from("^3.29.5"));
    assert_eq!(manifest["devDependencies"]["autoprefixer"], Value::from("^10.4.21"));
    assert_eq!(manifest["devDependencies"]["postcss"], Value::from("^8.5.3"));
    assert_eq!(manifest["devDependencies"]["postcss-cli"], Value::from("^11.0.1"));
    assert_eq!(manifest["devDependencies"]["tailwindcss"], Value::from("^3.4.17"));

    let head = tree.text(DOCUMENT_HEAD_PATH);
    assert_eq!(
        head,
        format!(
            "<head>\n  {}{}\n  <title>Help Center</title>\n</head>\n",
            VIEWPORT_TAG, STYLESHEET_LINK
        )
    );
}

#[test]
fn run_leaves_the_top_folder_and_the_cleared_entries_out() {
    let (state, tree, _) = run(replied(theme_archive()), false, false);
    assert_eq!(state, RunState::Done);
    let files: Vec<&str> = tree.files.keys().map(|path| path.as_str()).collect();
    assert_eq!(
        files,
        vec![
            "package.json",
            "styles/index.scss",
            "templates/document_head.hbs",
            "templates/home_page.hbs"
        ]
    );
    let dirs: Vec<&str> = tree.dirs.iter().map(|path| path.as_str()).collect();
    assert_eq!(dirs, vec!["styles", "templates"]);
}

#[test]
fn run_without_styling_leaves_the_document_head_alone() {
    let (state, tree, performed) = run(replied(theme_archive()), false, false);
    assert_eq!(state, RunState::Done);
    assert_eq!(performed, vec![Stage::Fetch, Stage::Extract, Stage::Customize]);
    assert!(!tree.files.contains_key(STYLESHEET_PATH));
    assert!(!tree.text(DOCUMENT_HEAD_PATH).contains("tailwind.css"));
    assert_eq!(
        tree.text("package.json"),
        "{\n  \"name\": \"HML v1.0.0\",\n  \"scripts\": {\n    \"start\": \"zcli themes:preview\"\n  },\n  \"devDependencies\": {\n    \"rollup\": \"^3.29.5\"\n  }\n}"
    );
}

#[test]
fn run_fails_at_fetch_when_the_remote_side_rejects() {
    let transfer = Transfer::Replied { status: 404, body: None };
    let (state, tree, performed) = run(transfer, true, false);
    assert_eq!(
        state,
        RunState::Failed { stage: Stage::Fetch, cause: Cause::Fetch(FetchError::RemoteRejected(404)) }
    );
    assert_eq!(performed, vec![Stage::Fetch]);
    assert!(tree.files.is_empty());
}

#[test]
fn run_fails_at_extract_when_the_body_is_no_archive() {
    let (state, tree, performed) = run(replied(b"<html>not a zip</html>".to_vec()), true, false);
    assert_eq!(
        state,
        RunState::Failed { stage: Stage::Extract, cause: Cause::Extract(ExtractError::Corrupt) }
    );
    assert_eq!(performed, vec![Stage::Fetch, Stage::Extract]);
    assert!(tree.files.is_empty());
}

#[test]
fn run_performs_nothing_when_the_destination_exists() {
    let (state, tree, performed) = run(replied(theme_archive()), true, true);
    assert_eq!(
        state,
        RunState::Failed { stage: Stage::Extract, cause: Cause::DestinationExists }
    );
    assert_eq!(performed, Vec::new());
    assert!(tree.files.is_empty());
}
