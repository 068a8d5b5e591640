//! The engine's operations over fabricated cache locations, and the
//! verbosity arithmetic of the options.
use thumbs::cli::{LogLevel, ProgramOptions};
use thumbs::{DeleteResults, UnThumbnailer};

fn engine_over(locs: Vec<&str>) -> UnThumbnailer {
    UnThumbnailer {
        recursive: false,
        hidden: false,
        cache_locs: locs.into_iter().map(|l| l.to_string()).collect(),
    }
}

#[test]
fn locate_finds_nothing_under_empty_locations() {
    let un = engine_over(vec!["/surely/not/here/normal", "/surely/not/here/large"]);
    let found = un.locate("/tmp").unwrap();
    assert!(found.is_empty());
}

#[test]
fn locate_is_idempotent_for_an_unchanged_cache() {
    let un = engine_over(vec!["/surely/not/here/normal", "/surely/not/here/large"]);
    let first: Vec<String> =
        un.locate("/tmp").unwrap().into_iter().map(|t| t.thumbnail).collect();
    let second: Vec<String> =
        un.locate("/tmp").unwrap().into_iter().map(|t| t.thumbnail).collect();
    assert_eq!(first, second);
}

#[test]
fn locate_rejects_a_nonexistent_path() {
    let un = engine_over(vec!["/surely/not/here/normal", "/surely/not/here/large"]);
    assert!(un.locate("/surely/not/existing/q.jpg").is_err());
}

#[test]
fn delete_of_no_paths_reports_nothing() {
    let un = engine_over(vec!["/surely/not/here/normal", "/surely/not/here/large"]);
    let DeleteResults { thumbnail_paths, ignored_directories } =
        un.delete(&vec![], None).unwrap();
    assert!(thumbnail_paths.is_empty());
    assert_eq!(ignored_directories, 0);
}

#[test]
fn a_directory_input_is_counted_when_recursion_is_off() {
    let un = engine_over(vec!["/surely/not/here/normal", "/surely/not/here/large"]);
    let results = un.delete(&vec!["/tmp".to_string()], None).unwrap();
    assert_eq!(results.ignored_directories, 1);
    assert!(results.thumbnail_paths.is_empty());
}

#[test]
fn cleanup_candidates_of_empty_locations_is_empty() {
    let un = engine_over(vec!["/surely/not/here/normal", "/surely/not/here/large"]);
    assert!(un.cleanup_candidates().is_empty());
}

#[test]
fn discovered_locations_start_with_the_standard_stores() {
    match UnThumbnailer::new(true, false) {
        Ok(un) => {
            assert!(un.recursive);
            assert!(!un.hidden);
            assert!(un.cache_locs.len() >= 2);
            assert!(un.cache_locs[0].ends_with("thumbnails/normal"));
            assert!(un.cache_locs[1].ends_with("thumbnails/large"));
            for extra in &un.cache_locs[2..] {
                assert!(extra.contains("thumbnails/fail/"));
            }
        }
        // Only a machine without a cache directory may refuse.
        Err(e) => assert_eq!(e.message().as_str(), "could not find the cache directory"),
    }
}

fn options(verbose: i8, quiet: i8) -> ProgramOptions {
    ProgramOptions { verbose, quiet, recursive: false, all: false, cmd: None }
}

#[test]
fn untouched_verbosity_leaves_the_default() {
    assert_eq!(options(0, 0).log_level_with_default(2), None);
    assert_eq!(options(3, 3).log_level_with_default(2), None);
}

#[test]
fn verbosity_raises_and_quiet_lowers_the_level() {
    assert_eq!(options(1, 0).log_level_with_default(2), Some(LogLevel::Informational));
    assert_eq!(options(2, 0).log_level_with_default(2), Some(LogLevel::Debugging));
    assert_eq!(options(3, 0).log_level_with_default(2), Some(LogLevel::Tracing));
    assert_eq!(options(0, 1).log_level_with_default(2), Some(LogLevel::ErrorsOnly));
    assert_eq!(options(0, 2).log_level_with_default(2), Some(LogLevel::Off));
    assert_eq!(options(0, 5).log_level_with_default(2), Some(LogLevel::Off));
}

#[test]
fn extreme_verbosity_does_not_overflow() {
    assert_eq!(options(127, 0).log_level_with_default(2), Some(LogLevel::Tracing));
    assert_eq!(options(0, 127).log_level_with_default(2), Some(LogLevel::Off));
}
