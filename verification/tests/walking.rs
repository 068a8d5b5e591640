//! Path predicates and walk-entry selection: the hidden-entry rule and
//! the access-time rule.
use thumbs::fsprobe::WalkEntry;
use thumbs::paths::{has_hidden_component_str, has_png_ext_str, is_hidden_unix, join_path};
use thumbs::walker::{access_time_permits, select_files};

fn entry(rel: &str, is_dir: bool) -> WalkEntry {
    WalkEntry { path: format!("/d/{}", rel), rel: rel.to_string(), is_dir }
}

#[test]
fn hidden_names_start_with_a_dot() {
    assert!(is_hidden_unix(".x"));
    assert!(is_hidden_unix(".hidden.txt"));
    assert!(!is_hidden_unix("x"));
    assert!(!is_hidden_unix("x.y"));
    assert!(!is_hidden_unix(""));
}

#[test]
fn hidden_components_are_found_at_any_depth() {
    assert!(has_hidden_component_str(".a"));
    assert!(has_hidden_component_str("a/.b/c"));
    assert!(has_hidden_component_str("a/b/.c"));
    assert!(!has_hidden_component_str("a/b.c/d"));
    assert!(!has_hidden_component_str("a/b"));
    assert!(!has_hidden_component_str(""));
}

#[test]
fn png_extension_needs_a_stem() {
    assert!(has_png_ext_str("a.png"));
    assert!(has_png_ext_str("..png"));
    assert!(!has_png_ext_str(".png"));
    assert!(!has_png_ext_str("png"));
    assert!(!has_png_ext_str("a.PNG"));
    assert!(!has_png_ext_str("a.apng"));
}

#[test]
fn join_inserts_exactly_one_separator() {
    assert_eq!(join_path("/a/b", "c").as_str(), "/a/b/c");
    assert_eq!(join_path("/a/b/", "c").as_str(), "/a/b/c");
}

#[test]
fn hidden_files_are_filtered_unless_included() {
    let entries = vec![entry(".hidden.txt", false), entry("visible.txt", false)];
    let without = select_files(&entries, false);
    assert_eq!(without, vec![1]);
    let with = select_files(&entries, true);
    assert_eq!(with, vec![0, 1]);
}

#[test]
fn files_under_hidden_directories_are_filtered_too() {
    let entries = vec![
        entry(".git", true),
        entry(".git/config", false),
        entry("src", true),
        entry("src/lib.rs", false),
    ];
    let without = select_files(&entries, false);
    assert_eq!(without, vec![3]);
    let with = select_files(&entries, true);
    assert_eq!(with, vec![1, 3]);
}

#[test]
fn directories_are_never_selected() {
    let entries = vec![entry("d", true), entry("f", false)];
    assert_eq!(select_files(&entries, true), vec![1]);
}

#[test]
fn access_filter_admits_strictly_older_files_only() {
    assert!(access_time_permits(Some(5), 10));
    assert!(!access_time_permits(Some(10), 10));
    assert!(!access_time_permits(Some(11), 10));
    assert!(!access_time_permits(None, 10));
}
