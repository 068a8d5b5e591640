//! Glob-token splitting and compilation.
use thumbs::globs::{build_glob_set, split_globs};
use thumbs::Error;

#[test]
fn bang_tokens_become_excludes_with_the_bang_stripped() {
    let tokens = vec!["!a/**".to_string(), "b".to_string()];
    let (excludes, includes) = split_globs(&tokens);
    assert_eq!(excludes, vec!["a/**".to_string()]);
    assert_eq!(includes, vec!["b".to_string()]);
}

#[test]
fn includes_default_to_match_everything() {
    let (excludes, includes) = split_globs(&vec![]);
    assert!(excludes.is_empty());
    assert_eq!(includes, vec!["**".to_string()]);

    let tokens = vec!["!x".to_string()];
    let (excludes, includes) = split_globs(&tokens);
    assert_eq!(excludes, vec!["x".to_string()]);
    assert_eq!(includes, vec!["**".to_string()]);
}

#[test]
fn valid_globs_compile() {
    let set = build_glob_set(&vec!["/tmp/**".to_string(), "*.jpg".to_string()]).unwrap();
    assert!(set.is_match("/tmp/a/b.png"));
    assert!(set.is_match("x.jpg"));
    assert!(!set.is_match("/usr/share/y.gif"));
}

#[test]
fn an_invalid_glob_is_reported_with_its_pattern() {
    let r = build_glob_set(&vec!["a[".to_string(), "b".to_string()]);
    match r {
        Err(Error::InvalidGlob { pattern }) => assert_eq!(pattern.as_str(), "a["),
        _ => panic!("expected an invalid-glob error"),
    }
}

#[test]
fn the_empty_set_matches_nothing_and_star_star_matches_everything() {
    let empty = build_glob_set(&vec![]).unwrap();
    assert!(!empty.is_match("/anything/at/all"));
    let all = build_glob_set(&vec!["**".to_string()]).unwrap();
    assert!(all.is_match("/anything/at/all"));
    assert!(all.is_match("rel/path.png"));
}
