use city3d_stac::traversal::filter_by_extensions;
use city3d_stac::traversal::{find_files_with_patterns, InputProbe};
use std::path::Path;

fn owned(v: &[&str]) -> Vec<String> {
    v.iter().map(|s| s.to_string()).collect()
}

#[test]
fn test_filter_by_extensions() {
    let files = owned(&["file1.json", "file2.jsonl", "file3.fcb"]);
    let filtered = filter_by_extensions(files, &vec!["json".to_string()]);
    assert_eq!(filtered.len(), 1);

    let files = owned(&["file1.json", "file2.jsonl", "file3.fcb"]);
    let filtered = filter_by_extensions(files, &vec!["json".to_string(), "jsonl".to_string()]);
    assert_eq!(filtered.len(), 2);
}

#[test]
fn test_filter_single_extension() {
    let files = owned(&["file1.json", "file2.jsonl", "file3.fcb"]);
    let filtered = filter_by_extensions(files, &vec!["json".to_string()]);
    assert_eq!(filtered.len(), 1);
    assert_eq!(Path::new(&filtered[0]).extension().unwrap(), "json");
}

#[test]
fn test_filter_multiple_extensions() {
    let files = owned(&["file1.json", "file2.jsonl", "file3.fcb"]);
    let filtered = filter_by_extensions(files, &vec!["json".to_string(), "jsonl".to_string()]);
    assert_eq!(filtered.len(), 2);
}

#[test]
fn test_filter_case_insensitive() {
    let files = owned(&["file1.JSON", "file2.Json", "file3.json"]);
    let filtered = filter_by_extensions(files, &vec!["json".to_string()]);
    assert_eq!(filtered.len(), 3);
}

#[test]
fn test_filter_empty_list() {
    let files: Vec<String> = vec![];
    let filtered = filter_by_extensions(files, &vec!["json".to_string()]);
    assert!(filtered.is_empty());
}

#[test]
fn test_filter_no_matches() {
    let files = owned(&["file1.txt", "file2.csv"]);
    let filtered = filter_by_extensions(files, &vec!["json".to_string()]);
    assert!(filtered.is_empty());
}

#[test]
fn discovery_filters_found_files_by_pattern_but_keeps_named_files() {
    let inputs = vec![
        InputProbe::Directory(owned(&["d/b.json", "d/a.json", "d/skip.txt", "d/x.zip"])),
        InputProbe::File("named.gml".to_string()),
        InputProbe::File("bad.txt".to_string()),
        InputProbe::Missing("*.fcb".to_string(), owned(&["m.fcb"])),
        InputProbe::Missing("nothere".to_string(), owned(&["zzz.json"])),
        InputProbe::File("d/a.json".to_string()),
    ];
    let found = find_files_with_patterns(&inputs, &owned(&["*.json", "*.fcb"]), &owned(&["b.*"]));
    assert_eq!(found, owned(&["d/a.json", "m.fcb", "named.gml"]));
}
