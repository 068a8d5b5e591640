//! Robustness of the PNG chunk-frame parser on malformed inputs: damaged
//! or crafted cache files are classified, never a cause of a panic.
use thumbs::globs::{build_glob_set, split_globs};
use thumbs::orphan::{assess_thumbnail, ThumbAssessment};

const SIGNATURE: [u8; 8] = [137, 80, 78, 71, 13, 10, 26, 10];

fn chunk(ty: [u8; 4], data: &[u8]) -> Vec<u8> {
    let mut out = Vec::new();
    out.extend_from_slice(&(data.len() as u32).to_be_bytes());
    out.extend_from_slice(&ty);
    out.extend_from_slice(data);
    // The frame parser skips the checksum without checking it.
    out.extend_from_slice(&[0, 0, 0, 0]);
    out
}

fn png_of(chunks: &[Vec<u8>]) -> Vec<u8> {
    let mut out = SIGNATURE.to_vec();
    for c in chunks {
        out.extend_from_slice(c);
    }
    out
}

fn default_sets() -> (globset::GlobSet, globset::GlobSet) {
    let (excludes, includes) = split_globs(&vec![]);
    (build_glob_set(&excludes).unwrap(), build_glob_set(&includes).unwrap())
}

fn assess(bytes: &Vec<u8>) -> ThumbAssessment {
    let (ex, inc) = default_sets();
    assess_thumbnail(bytes, &ex, &inc)
}

#[test]
fn a_short_ztxt_zlib_stream_is_skipped_not_fatal() {
    // Key, NUL, method byte, then a 2-byte stream that opens like zlib but
    // cannot inflate.
    let png = png_of(&[chunk(*b"zTXt", &[b'k', 0, 0, 0x78, 0x9C])]);
    assert!(matches!(assess(&png), ThumbAssessment::NoOriginUri));
}

#[test]
fn an_oversized_declared_header_length_is_framed_over() {
    // An IHDR frame declaring 14 data bytes: the frame is skipped whole.
    let mut ihdr = vec![0u8; 14];
    ihdr[8] = 8;
    let png = png_of(&[chunk(*b"IHDR", &ihdr)]);
    assert!(matches!(assess(&png), ThumbAssessment::NoOriginUri));
}

#[test]
fn a_text_key_with_invalid_utf8_never_matches() {
    let png = png_of(&[chunk(*b"tEXt", &[0xFF, 0, b'f', b'i', b'l', b'e'])]);
    assert!(matches!(assess(&png), ThumbAssessment::NoOriginUri));
}

#[test]
fn a_truncated_chunk_ends_the_walk() {
    // One good chunk, then a frame whose declared length overruns the file.
    let good = chunk(*b"tEXt", b"Thumb::URI\0file:///tmp");
    let mut bad = chunk(*b"tEXt", b"k\0v");
    bad[3] = 200;
    let png = png_of(&[good, bad]);
    match assess(&png) {
        ThumbAssessment::OriginPresent { origin } => assert_eq!(origin.as_str(), "/tmp"),
        _ => panic!("expected the chunk before the damage to be read"),
    }
}

#[test]
fn a_key_without_terminator_is_skipped() {
    let png = png_of(&[chunk(*b"tEXt", b"Thumb::URI file:///tmp")]);
    assert!(matches!(assess(&png), ThumbAssessment::NoOriginUri));
}

#[test]
fn an_overlong_key_is_skipped() {
    let mut data = vec![b'k'; 80];
    data.push(0);
    data.extend_from_slice(b"v");
    let png = png_of(&[chunk(*b"tEXt", &data)]);
    assert!(matches!(assess(&png), ThumbAssessment::NoOriginUri));
}

#[test]
fn a_handmade_text_chunk_is_read_despite_its_checksum() {
    let png = png_of(&[chunk(*b"tEXt", b"Thumb::URI\0file:///tmp")]);
    match assess(&png) {
        ThumbAssessment::OriginPresent { origin } => assert_eq!(origin.as_str(), "/tmp"),
        _ => panic!("expected the origin to be read"),
    }
}

#[test]
fn random_bytes_are_unreadable() {
    assert!(matches!(assess(&vec![9u8, 9, 9, 9]), ThumbAssessment::UnreadablePng));
    assert!(matches!(assess(&Vec::new()), ThumbAssessment::UnreadablePng));
}

#[test]
fn a_signature_only_file_has_no_chunks() {
    assert!(matches!(assess(&SIGNATURE.to_vec()), ThumbAssessment::NoOriginUri));
}
