//! The MD5 digest underlying cache keys.
use vstd::prelude::*;

verus! {

/// The MD5 digest of the UTF-8 bytes of a character string.
pub uninterp spec fn md5_of(s: Seq<char>) -> Seq<u8>;

/// Relies on `md5::compute`: the digest is 16 bytes and depends on the
/// input bytes alone.
#[verifier::external_body]
pub(crate) fn md5_digest_str(s: &str) -> (r: Vec<u8>)
    ensures
        r@ == md5_of(s@),
        r@.len() == 16,
{
    md5::compute(s.as_bytes()).0.to_vec()
}

} // verus!
