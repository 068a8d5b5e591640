//! Cache-key derivation: hex rendering and the canonical-URI pipeline.
use thumbs::hex::to_hex_lower;
use thumbs::resolver::{candidate_path, derive_key, key_for_canonical};
use thumbs::Error;

#[test]
fn the_canonical_key_is_md5_of_the_file_uri() {
    // No canonicalization happens here: the argument is taken as the
    // canonical path, so the key is a pure function of it.
    assert_eq!(key_for_canonical("/tmp").as_str(), "c2731c0788339744944161fd8afb74dd");
    assert_eq!(key_for_canonical("/").as_str(), "03f0716f0d219f8b767d0e5ac6c3da37");
}

#[test]
fn hex_of_bytes_is_lowercase_two_digits_per_byte() {
    assert_eq!(to_hex_lower(&vec![0x00u8, 0xffu8, 0x1au8]).as_str(), "00ff1a");
    assert_eq!(to_hex_lower(&vec![]).as_str(), "");
    assert_eq!(to_hex_lower(&vec![0x0fu8]).as_str(), "0f");
    assert_eq!(to_hex_lower(&vec![0xa0u8]).as_str(), "a0");
}

#[test]
fn key_of_root_is_md5_of_its_uri() {
    // The canonical URI of `/` is `file:///`; its MD5 is fixed.
    let key = derive_key("/").unwrap();
    assert_eq!(key.as_str(), "03f0716f0d219f8b767d0e5ac6c3da37");
}

#[test]
fn key_of_tmp_is_md5_of_its_uri() {
    let key = derive_key("/tmp").unwrap();
    assert_eq!(key.as_str(), "c2731c0788339744944161fd8afb74dd");
}

#[test]
fn key_is_canonicalization_invariant() {
    // Dot components vanish under canonicalization, so both spellings
    // derive the same key.
    assert_eq!(derive_key("/tmp/../tmp").unwrap(), derive_key("/tmp").unwrap());
    assert_eq!(derive_key("/tmp/.").unwrap(), derive_key("/tmp").unwrap());
}

#[test]
fn distinct_canonical_uris_derive_distinct_keys() {
    assert_ne!(derive_key("/").unwrap(), derive_key("/tmp").unwrap());
}

#[test]
fn key_is_32_lowercase_hex_characters() {
    let key = derive_key("/tmp").unwrap();
    assert_eq!(key.len(), 32);
    assert!(key.chars().all(|c| c.is_ascii_hexdigit() && !c.is_ascii_uppercase()));
}

#[test]
fn nonexistent_path_is_a_resolution_error() {
    let r = derive_key("/surely/not/existing/anywhere/at/all");
    match r {
        Err(Error::PathResolution { path }) => {
            assert_eq!(path.as_str(), "/surely/not/existing/anywhere/at/all");
        }
        _ => panic!("expected a path-resolution error"),
    }
}

#[test]
fn error_messages_name_the_failure() {
    let e = Error::CacheDirUnavailable;
    assert_eq!(e.message().as_str(), "could not find the cache directory");
    let e = Error::PathResolution { path: "/x".to_string() };
    assert_eq!(e.message().as_str(), "could not resolve path: /x");
    let e = Error::InvalidGlob { pattern: "[".to_string() };
    assert_eq!(e.message().as_str(), "invalid glob pattern: [");
}

#[test]
fn candidate_is_key_dot_png_under_location() {
    assert_eq!(candidate_path("/a/b", "deadbeef").as_str(), "/a/b/deadbeef.png");
    assert_eq!(candidate_path("/a/", "deadbeef").as_str(), "/a/deadbeef.png");
}
