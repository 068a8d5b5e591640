//! Orphan classification of cached PNGs, driven by in-memory PNG bytes.
use thumbs::globs::{build_glob_set, split_globs};
use thumbs::orphan::{assess_thumbnail, orphan_verdict, ThumbAssessment};
use png_pong::chunk::{Chunk, ColorType, CompressedText, ImageEnd, ImageHeader, Text};

fn png_with_chunks(texts: &[(&str, &str)], compressed: bool) -> Vec<u8> {
    // The chunk-level encoder does not write the PNG signature itself.
    let mut out = vec![137u8, 80, 78, 71, 13, 10, 26, 10];
    {
        let mut enc = png_pong::Encoder::new(&mut out).into_chunk_enc();
        let mut header = Chunk::ImageHeader(ImageHeader {
            width: 1,
            height: 1,
            color_type: ColorType::Grey,
            bit_depth: 8,
            interlace: false,
        });
        enc.encode(&mut header).unwrap();
        for (key, val) in texts {
            let mut chunk = if compressed {
                Chunk::CompressedText(CompressedText {
                    key: key.to_string(),
                    val: val.to_string(),
                })
            } else {
                Chunk::Text(Text { key: key.to_string(), val: val.to_string() })
            };
            enc.encode(&mut chunk).unwrap();
        }
        let mut end = Chunk::ImageEnd(ImageEnd);
        enc.encode(&mut end).unwrap();
    }
    out
}

fn default_sets() -> (globset::GlobSet, globset::GlobSet) {
    let (excludes, includes) = split_globs(&vec![]);
    (build_glob_set(&excludes).unwrap(), build_glob_set(&includes).unwrap())
}

fn sets_for(tokens: Vec<&str>) -> (globset::GlobSet, globset::GlobSet) {
    let owned: Vec<String> = tokens.into_iter().map(|t| t.to_string()).collect();
    let (excludes, includes) = split_globs(&owned);
    (build_glob_set(&excludes).unwrap(), build_glob_set(&includes).unwrap())
}

#[test]
fn a_gone_origin_with_default_globs_is_an_orphan() {
    let png = png_with_chunks(&[("Thumb::URI", "file:///tmp/surely-gone-xyzzy.jpg")], false);
    let (ex, inc) = default_sets();
    match assess_thumbnail(&png, &ex, &inc) {
        ThumbAssessment::Orphan { origin } => {
            assert_eq!(origin.as_str(), "/tmp/surely-gone-xyzzy.jpg");
        }
        _ => panic!("expected an orphan"),
    }
}

#[test]
fn an_existing_origin_is_not_an_orphan() {
    let png = png_with_chunks(&[("Thumb::URI", "file:///tmp")], false);
    let (ex, inc) = default_sets();
    match assess_thumbnail(&png, &ex, &inc) {
        ThumbAssessment::OriginPresent { origin } => assert_eq!(origin.as_str(), "/tmp"),
        _ => panic!("expected the origin to be present"),
    }
}

#[test]
fn an_excluded_origin_is_never_an_orphan_even_if_gone() {
    let png = png_with_chunks(&[("Thumb::URI", "file:///tmp/surely-gone-xyzzy.jpg")], false);
    let (ex, inc) = sets_for(vec!["!/tmp/**"]);
    match assess_thumbnail(&png, &ex, &inc) {
        ThumbAssessment::Excluded { origin } => {
            assert_eq!(origin.as_str(), "/tmp/surely-gone-xyzzy.jpg");
        }
        _ => panic!("expected exclusion"),
    }
}

#[test]
fn an_origin_outside_the_includes_is_skipped() {
    let png = png_with_chunks(&[("Thumb::URI", "file:///tmp/surely-gone-xyzzy.jpg")], false);
    let (ex, inc) = sets_for(vec!["/elsewhere/**"]);
    match assess_thumbnail(&png, &ex, &inc) {
        ThumbAssessment::NotIncluded { origin } => {
            assert_eq!(origin.as_str(), "/tmp/surely-gone-xyzzy.jpg");
        }
        _ => panic!("expected a not-included verdict"),
    }
}

#[test]
fn a_remote_origin_is_never_a_candidate() {
    let png = png_with_chunks(&[("Thumb::URI", "https://example.com/a.jpg")], false);
    let (ex, inc) = default_sets();
    assert!(matches!(assess_thumbnail(&png, &ex, &inc), ThumbAssessment::ForeignOrigin));
}

#[test]
fn a_png_without_the_uri_chunk_is_not_a_cache_entry() {
    let png = png_with_chunks(&[("Title", "hello")], false);
    let (ex, inc) = default_sets();
    assert!(matches!(assess_thumbnail(&png, &ex, &inc), ThumbAssessment::NoOriginUri));
}

#[test]
fn bytes_that_are_not_a_png_are_unreadable() {
    let bytes = vec![1u8, 2, 3, 4];
    let (ex, inc) = default_sets();
    assert!(matches!(assess_thumbnail(&bytes, &ex, &inc), ThumbAssessment::UnreadablePng));
}

#[test]
fn a_compressed_text_chunk_is_read_too() {
    let png = png_with_chunks(&[("Thumb::URI", "file:///tmp/surely-gone-xyzzy.jpg")], true);
    let (ex, inc) = default_sets();
    assert!(matches!(assess_thumbnail(&png, &ex, &inc), ThumbAssessment::Orphan { .. }));
}

#[test]
fn the_first_uri_chunk_wins() {
    let png = png_with_chunks(
        &[("Thumb::URI", "file:///tmp"), ("Thumb::URI", "file:///")],
        false,
    );
    let (ex, inc) = default_sets();
    match assess_thumbnail(&png, &ex, &inc) {
        ThumbAssessment::OriginPresent { origin } => assert_eq!(origin.as_str(), "/tmp"),
        _ => panic!("expected the first recorded origin"),
    }
}

#[test]
fn the_verdict_follows_the_existence_probe() {
    match orphan_verdict("/a/b.jpg".to_string(), true) {
        ThumbAssessment::OriginPresent { origin } => assert_eq!(origin.as_str(), "/a/b.jpg"),
        _ => panic!("a present origin keeps its thumbnail"),
    }
    match orphan_verdict("/a/b.jpg".to_string(), false) {
        ThumbAssessment::Orphan { origin } => assert_eq!(origin.as_str(), "/a/b.jpg"),
        _ => panic!("a gone origin makes an orphan"),
    }
}

#[test]
fn percent_encoded_origins_are_decoded() {
    let png = png_with_chunks(
        &[("Thumb::URI", "file:///tmp/gone%20for%20good.jpg")],
        false,
    );
    let (ex, inc) = default_sets();
    match assess_thumbnail(&png, &ex, &inc) {
        ThumbAssessment::Orphan { origin } => {
            assert_eq!(origin.as_str(), "/tmp/gone for good.jpg");
        }
        _ => panic!("expected an orphan with a decoded origin"),
    }
}
