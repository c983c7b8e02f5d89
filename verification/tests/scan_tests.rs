use fdupe::scan::FdupeError;
use fdupe::scan::NamePath;
use fdupe::scan::ScanEntry;
use fdupe::scan::get_paths;

fn entry(name: &str, path: &str) -> ScanEntry {
    ScanEntry { name: Some(name.to_string()), path: Some(path.to_string()) }
}

fn fixture_entries() -> Vec<ScanEntry> {
    vec![
        entry("test1.txt", "fixture/test1.txt"),
        entry("test2.txt", "fixture/test2.txt"),
        entry("test_data.bin", "fixture/test_data.bin"),
        entry("contest_notes.log", "fixture/contest_notes.log"),
        entry("latest_test.md", "fixture/sub/latest_test.md"),
        entry("readme.md", "fixture/readme.md"),
        entry("photo.jpg", "fixture/photo.jpg"),
        entry("archive.zip", "fixture/sub/archive.zip"),
    ]
}

#[test]
fn test_collect_without_filter() {
    let entries = fixture_entries();
    let paths = get_paths(&entries, None).unwrap();
    assert_eq!(8, paths.len());
    // records keep the walk order, and the names and paths as given
    assert_eq!(
        NamePath { name: "test1.txt".to_string(), path: "fixture/test1.txt".to_string() },
        paths[0]
    );
    assert_eq!("archive.zip", paths[7].name);
    assert_eq!("fixture/sub/archive.zip", paths[7].path);
}

#[test]
fn test_collect_with_filter() {
    let entries = fixture_entries();
    let paths = get_paths(&entries, Some("test.*")).unwrap();
    assert_eq!(5, paths.len());
    let names: Vec<&str> = paths.iter().map(|p| p.name.as_str()).collect();
    assert_eq!(
        vec!["test1.txt", "test2.txt", "test_data.bin", "contest_notes.log", "latest_test.md"],
        names
    );
}

#[test]
fn test_invalid_pattern_is_an_error() {
    let entries = fixture_entries();
    let r = get_paths(&entries, Some("test("));
    assert!(matches!(r, Err(FdupeError::InvalidPattern(_))));
}

#[test]
fn test_invalid_pattern_beats_bad_entries() {
    // the pattern is rejected before any entry is looked at
    let entries = vec![ScanEntry { name: None, path: None }];
    let r = get_paths(&entries, Some("["));
    assert!(matches!(r, Err(FdupeError::InvalidPattern(_))));
}

#[test]
fn test_missing_name_aborts() {
    let mut entries = fixture_entries();
    entries.insert(3, ScanEntry { name: None, path: Some("fixture/x".to_string()) });
    let r = get_paths(&entries, None);
    assert_eq!(Err(FdupeError::MissingName), r);
}

#[test]
fn test_missing_path_aborts() {
    let mut entries = fixture_entries();
    entries.push(ScanEntry { name: Some("x.txt".to_string()), path: None });
    let r = get_paths(&entries, None);
    assert_eq!(Err(FdupeError::MissingPath), r);
}

#[test]
fn test_missing_name_reported_before_missing_path() {
    // within one entry the name is checked first
    let entries = vec![ScanEntry { name: None, path: None }];
    let r = get_paths(&entries, None);
    assert_eq!(Err(FdupeError::MissingName), r);
}

#[test]
fn test_filter_applies_to_unrepresentable_entries_too() {
    // a bad entry aborts even when a filter is active and would not match it
    let entries = vec![
        entry("readme.md", "fixture/readme.md"),
        ScanEntry { name: None, path: Some("fixture/x".to_string()) },
    ];
    let r = get_paths(&entries, Some("test.*"));
    assert_eq!(Err(FdupeError::MissingName), r);
}
