use hc_cli::archive::ArchiveEntry;
use hc_cli::extract::{
    empty_plan, extend_plan, extract, plan_entries, plan_entry, unsafe_name, Action, ExtractError,
    ExtractionPlan,
};
use hc_cli::path::{names_something, split_components};
use std::io::{Cursor, Write};
use zip::write::FileOptions;
use zip::{CompressionMethod, ZipWriter};

fn entry(path: &str, data: &[u8]) -> ArchiveEntry {
    ArchiveEntry { path: path.as_bytes().to_vec(), data: data.to_vec() }
}

fn parts(names: &[&str]) -> Vec<Vec<u8>> {
    names.iter().map(|name| name.as_bytes().to_vec()).collect()
}

fn dir(names: &[&str]) -> Action {
    Action::CreateDir { path: parts(names) }
}

fn file(names: &[&str], data: &[u8]) -> Action {
    Action::WriteFile { path: parts(names), data: data.to_vec() }
}

fn archive(entries: &[(&str, Option<&[u8]>)], method: CompressionMethod) -> Vec<u8> {
    let mut writer = ZipWriter::new(Cursor::new(Vec::new()));
    let options = FileOptions::default().compression_method(method);
    for (name, content) in entries {
        match content {
            None => writer.add_directory(*name, options).unwrap(),
            Some(bytes) => {
                writer.start_file(*name, options).unwrap();
                writer.write_all(bytes).unwrap();
            }
        }
    }
    writer.finish().unwrap().into_inner()
}

fn theme() -> Vec<(&'static str, Option<&'static [u8]>)> {
    vec![
        ("theme-main/", None),
        ("theme-main/package.json", Some(b"{\"name\": \"theme\"}".as_slice())),
        ("theme-main/templates/", None),
        ("theme-main/templates/home_page.hbs", Some(b"<h1>Home</h1>".as_slice())),
        ("theme-main/assets/logo.svg", Some(b"<svg />".as_slice())),
    ]
}

fn theme_actions() -> Vec<Action> {
    vec![
        file(&["package.json"], b"{\"name\": \"theme\"}"),
        dir(&["templates"]),
        file(&["templates", "home_page.hbs"], b"<h1>Home</h1>"),
        file(&["assets", "logo.svg"], b"<svg />"),
    ]
}

#[test]
fn components_are_the_names_between_separators() {
    assert_eq!(split_components(b"a/b/c.txt"), parts(&["a", "b", "c.txt"]));
    assert_eq!(split_components(b"a"), parts(&["a"]));
    assert_eq!(split_components(b"theme-main/templates/"), parts(&["theme-main", "templates"]));
}

#[test]
fn components_leave_out_empty_segments_and_dots() {
    assert_eq!(split_components(b"/a//b/./c/"), parts(&["a", "b", "c"]));
    assert_eq!(split_components(b"./a/."), parts(&["a"]));
    assert_eq!(split_components(b""), parts(&[]));
    assert_eq!(split_components(b"///"), parts(&[]));
    assert_eq!(split_components(b"."), parts(&[]));
}

#[test]
fn components_keep_parent_steps_and_dotted_names() {
    assert_eq!(split_components(b"a/../b"), parts(&["a", "..", "b"]));
    assert_eq!(split_components(b".a/b./..."), parts(&[".a", "b.", "..."]));
}

#[test]
fn names_and_unsafe_names() {
    assert!(names_something(&b"a".to_vec()));
    assert!(names_something(&b"..".to_vec()));
    assert!(!names_something(&b".".to_vec()));
    assert!(!names_something(&Vec::new()));
    assert!(unsafe_name(&b"..".to_vec()));
    assert!(unsafe_name(&b"a\0b".to_vec()));
    assert!(!unsafe_name(&b"...".to_vec()));
    assert!(!unsafe_name(&b".a".to_vec()));
    assert!(!unsafe_name(&b"a".to_vec()));
}

#[test]
fn entry_loses_its_first_component() {
    assert_eq!(
        plan_entry(entry("theme-main/templates/home_page.hbs", b"<h1>")),
        Ok(Some(file(&["templates", "home_page.hbs"], b"<h1>")))
    );
    assert_eq!(plan_entry(entry("other/a.txt", b"x")), Ok(Some(file(&["a.txt"], b"x"))));
}

#[test]
fn entry_that_ends_in_a_separator_is_a_directory() {
    assert_eq!(plan_entry(entry("theme-main/templates/", b"")), Ok(Some(dir(&["templates"]))));
    assert_eq!(plan_entry(entry("theme-main/a/b/", b"")), Ok(Some(dir(&["a", "b"]))));
}

#[test]
fn entry_that_names_the_top_folder_only_is_skipped() {
    assert_eq!(plan_entry(entry("theme-main/", b"")), Ok(None));
    assert_eq!(plan_entry(entry("theme-main", b"content")), Ok(None));
    assert_eq!(plan_entry(entry("", b"")), Ok(None));
    assert_eq!(plan_entry(entry("/", b"")), Ok(None));
    assert_eq!(plan_entry(entry("./theme-main/.", b"")), Ok(None));
}

#[test]
fn entry_with_a_parent_step_below_the_top_folder_is_rejected() {
    assert_eq!(plan_entry(entry("theme-main/../evil.txt", b"x")), Err(ExtractError::UnsafePath));
    assert_eq!(
        plan_entry(entry("theme-main/a/../../evil.txt", b"x")),
        Err(ExtractError::UnsafePath)
    );
    assert_eq!(plan_entry(entry("theme-main/a/..", b"x")), Err(ExtractError::UnsafePath));
    assert_eq!(plan_entry(entry("theme-main/a/../", b"")), Err(ExtractError::UnsafePath));
}

#[test]
fn entry_with_a_nul_byte_below_the_top_folder_is_rejected() {
    assert_eq!(plan_entry(entry("theme-main/a\0b", b"x")), Err(ExtractError::UnsafePath));
}

#[test]
fn first_component_is_dropped_whatever_it_is() {
    assert_eq!(plan_entry(entry("../a.txt", b"x")), Ok(Some(file(&["a.txt"], b"x"))));
    assert_eq!(plan_entry(entry("/etc/passwd", b"x")), Ok(Some(file(&["passwd"], b"x"))));
}

#[test]
fn plan_takes_the_entries_in_order() {
    let entries = theme().into_iter().map(|(name, data)| entry(name, data.unwrap_or(b""))).collect();
    let plan = plan_entries(entries);
    assert_eq!(plan, ExtractionPlan { actions: theme_actions(), failure: None });
}

#[test]
fn plan_of_nothing_is_empty() {
    assert_eq!(plan_entries(Vec::new()), ExtractionPlan { actions: Vec::new(), failure: None });
    assert_eq!(empty_plan(), ExtractionPlan { actions: Vec::new(), failure: None });
}

#[test]
fn plan_ends_at_the_first_unsafe_entry() {
    let plan = plan_entries(vec![
        entry("r/", b""),
        entry("r/a.txt", b"a"),
        entry("r/../b.txt", b"b"),
        entry("r/c.txt", b"c"),
    ]);
    assert_eq!(
        plan,
        ExtractionPlan { actions: vec![file(&["a.txt"], b"a")], failure: Some(ExtractError::UnsafePath) }
    );
}

#[test]
fn plan_that_has_failed_takes_no_more_entries() {
    let mut plan = ExtractionPlan { actions: Vec::new(), failure: Some(ExtractError::Corrupt) };
    extend_plan(&mut plan, entry("r/a.txt", b"a"));
    assert_eq!(plan, ExtractionPlan { actions: Vec::new(), failure: Some(ExtractError::Corrupt) });
    let mut plan = empty_plan();
    extend_plan(&mut plan, entry("r/a.txt", b"a"));
    extend_plan(&mut plan, entry("r/", b""));
    assert_eq!(plan, ExtractionPlan { actions: vec![file(&["a.txt"], b"a")], failure: None });
}

#[test]
fn top_folder_is_absent_from_every_planned_path() {
    let plan = extract(archive(&theme(), CompressionMethod::Deflated)).unwrap();
    assert_eq!(plan.failure, None);
    for action in &plan.actions {
        let path = match action {
            Action::CreateDir { path } => path,
            Action::WriteFile { path, .. } => path,
        };
        assert!(!path.is_empty());
        assert!(path.iter().all(|name| name.as_slice() != b"theme-main"));
    }
}

#[test]
fn extract_reads_a_deflated_archive() {
    let plan = extract(archive(&theme(), CompressionMethod::Deflated));
    assert_eq!(plan, Ok(ExtractionPlan { actions: theme_actions(), failure: None }));
}

#[test]
fn extract_reads_a_stored_archive() {
    let plan = extract(archive(&theme(), CompressionMethod::Stored));
    assert_eq!(plan, Ok(ExtractionPlan { actions: theme_actions(), failure: None }));
}

#[test]
fn extract_reads_an_archive_without_entries() {
    let plan = extract(archive(&[], CompressionMethod::Stored));
    assert_eq!(plan, Ok(ExtractionPlan { actions: Vec::new(), failure: None }));
}

#[test]
fn extract_rejects_a_traversal_in_an_archive() {
    let entries: Vec<(&str, Option<&[u8]>)> = vec![
        ("r/ok.txt", Some(b"ok".as_slice())),
        ("r/../../outside.txt", Some(b"evil".as_slice())),
        ("r/late.txt", Some(b"late".as_slice())),
    ];
    let plan = extract(archive(&entries, CompressionMethod::Deflated));
    assert_eq!(
        plan,
        Ok(ExtractionPlan {
            actions: vec![file(&["ok.txt"], b"ok")],
            failure: Some(ExtractError::UnsafePath)
        })
    );
}

#[test]
fn extract_reports_bytes_that_are_no_archive() {
    assert_eq!(extract(b"this is no zip archive".to_vec()), Err(ExtractError::Corrupt));
    assert_eq!(extract(Vec::new()), Err(ExtractError::Corrupt));
}

#[test]
fn extract_reports_an_entry_with_a_wrong_checksum() {
    let entries: Vec<(&str, Option<&[u8]>)> = vec![
        ("r/first.txt", Some(b"first".as_slice())),
        ("r/second.txt", Some(b"SECOND-CONTENT".as_slice())),
        ("r/third.txt", Some(b"third".as_slice())),
    ];
    let mut bytes = archive(&entries, CompressionMethod::Stored);
    let at = bytes.windows(14).position(|window| window == b"SECOND-CONTENT").unwrap();
    bytes[at] = b'X';
    let plan = extract(bytes);
    assert_eq!(
        plan,
        Ok(ExtractionPlan {
            actions: vec![file(&["first.txt"], b"first")],
            failure: Some(ExtractError::Corrupt)
        })
    );
}

#[test]
fn extract_reports_a_truncated_archive() {
    let mut bytes = archive(&theme(), CompressionMethod::Deflated);
    bytes.truncate(bytes.len() - 10);
    assert_eq!(extract(bytes), Err(ExtractError::Corrupt));
}

#[test]
fn extract_reports_an_entry_that_announces_encryption_it_does_not_have() {
    let mut writer = ZipWriter::new(Cursor::new(Vec::new()));
    let options = FileOptions::default().compression_method(CompressionMethod::Stored);
    writer.start_file("r/plain.txt", options).unwrap();
    writer.write_all(b"plain").unwrap();
    writer.start_file_with_extra_data("r/odd.txt", options).unwrap();
    writer.write_all(&[0xfe, 0xca, 0x07, 0x00, 0x02, 0x00, 0x41, 0x45, 0x01, 0x00, 0x00]).unwrap();
    writer.end_extra_data().unwrap();
    writer.write_all(b"odd").unwrap();
    let mut bytes = writer.finish().unwrap().into_inner();
    let mut fields = 0;
    for at in 0..bytes.len() - 8 {
        if bytes[at..at + 8] == [0xfe, 0xca, 0x07, 0x00, 0x02, 0x00, 0x41, 0x45] {
            bytes[at] = 0x01;
            bytes[at + 1] = 0x99;
            fields += 1;
        }
    }
    assert_eq!(fields, 2);
    let plan = extract(bytes);
    assert_eq!(
        plan,
        Ok(ExtractionPlan {
            actions: vec![file(&["plain.txt"], b"plain")],
            failure: Some(ExtractError::Corrupt)
        })
    );
}
