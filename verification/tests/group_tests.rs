use fdupe::distance::edit_distance;
use fdupe::group::find_duplicates;
use fdupe::group::group_duplicates;
use fdupe::scan::FdupeError;
use fdupe::scan::NamePath;
use fdupe::scan::ScanEntry;

fn name_path(name: &str) -> NamePath {
    NamePath { name: name.to_string(), path: format!("dir/{}", name) }
}

fn entry(name: &str) -> ScanEntry {
    ScanEntry {
        name: Some(name.to_string()),
        path: Some(format!("dir/{}", name)),
    }
}

#[test]
fn test_grouping_simple() {
    let paths = vec![name_path("a.txt"), name_path("b.txt"), name_path("zzzzzz")];
    let groups = group_duplicates(&paths, 1);
    assert_eq!(1, groups.len());
    assert_eq!(0, groups[0].anchor);
    assert_eq!(vec![1], groups[0].dups);
}

#[test]
fn test_grouping_skips_anchors_without_duplicates() {
    let paths = vec![
        name_path("report.txt"),
        name_path("summary.pdf"),
        name_path("report1.txt"),
        name_path("repott.txt"),
    ];
    let groups = group_duplicates(&paths, 1);
    // anchor 0 matches 2 and 3; anchors 1, 2 and 3 have no later match
    assert_eq!(1, groups.len());
    assert_eq!(0, groups[0].anchor);
    assert_eq!(vec![2, 3], groups[0].dups);
}

#[test]
fn test_grouping_covers_every_close_pair() {
    let paths = vec![
        name_path("note1.txt"),
        name_path("note2.txt"),
        name_path("note3.txt"),
    ];
    let groups = group_duplicates(&paths, 1);
    // every pair is within distance 1, each anchored at its earlier index
    assert_eq!(2, groups.len());
    assert_eq!(0, groups[0].anchor);
    assert_eq!(vec![1, 2], groups[0].dups);
    assert_eq!(1, groups[1].anchor);
    assert_eq!(vec![2], groups[1].dups);
    // the reported pairs are exactly the close pairs
    for i in 0..paths.len() {
        for j in (i + 1)..paths.len() {
            let close = edit_distance(&paths[i].name, &paths[j].name) <= 1;
            let reported = groups
                .iter()
                .any(|g| g.anchor == i && g.dups.contains(&j));
            assert_eq!(close, reported);
        }
    }
}

#[test]
fn test_grouping_threshold_zero() {
    let paths = vec![name_path("same.txt"), name_path("same.txt"), name_path("other.txt")];
    let groups = group_duplicates(&paths, 0);
    assert_eq!(1, groups.len());
    assert_eq!(0, groups[0].anchor);
    assert_eq!(vec![1], groups[0].dups);
}

#[test]
fn test_grouping_empty_list() {
    let paths: Vec<NamePath> = vec![];
    let groups = group_duplicates(&paths, 3);
    assert!(groups.is_empty());
}

#[test]
fn test_find_duplicates_end_to_end() {
    let entries = vec![
        entry("holiday(1).jpg"),
        entry("holiday(2).jpg"),
        entry("taxes.pdf"),
    ];
    let report = find_duplicates(&entries, 1, None).unwrap();
    assert_eq!(3, report.paths.len());
    assert_eq!(1, report.groups.len());
    assert_eq!(0, report.groups[0].anchor);
    assert_eq!(vec![1], report.groups[0].dups);
}

#[test]
fn test_find_duplicates_with_filter() {
    let entries = vec![
        entry("holiday(1).jpg"),
        entry("taxes.pdf"),
        entry("holiday(2).jpg"),
    ];
    let report = find_duplicates(&entries, 1, Some(r"holiday.*")).unwrap();
    assert_eq!(2, report.paths.len());
    assert_eq!(1, report.groups.len());
    assert_eq!(0, report.groups[0].anchor);
    assert_eq!(vec![1], report.groups[0].dups);
}

#[test]
fn test_find_duplicates_invalid_pattern_gives_no_report() {
    let entries = vec![entry("a.txt"), entry("b.txt")];
    let r = find_duplicates(&entries, 1, Some("a("));
    assert!(matches!(r, Err(FdupeError::InvalidPattern(_))));
}

#[test]
fn test_determinism() {
    let entries = vec![
        entry("test1.txt"),
        entry("test2.txt"),
        entry("readme.md"),
        entry("reodme.md"),
    ];
    let first = find_duplicates(&entries, 2, Some("e"));
    let second = find_duplicates(&entries, 2, Some("e"));
    assert_eq!(first, second);
    let third = find_duplicates(&entries, 2, None);
    let fourth = find_duplicates(&entries, 2, None);
    assert_eq!(third, fourth);
}
