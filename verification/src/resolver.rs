//! Cache-key derivation and thumbnail resolution.
//!
//! A path's cache key is the MD5 hex digest of its canonical `file://` URI;
//! its thumbnail in a cache location is the file `<location>/<key>.png`.
use vstd::prelude::*;
use crate::digest::{md5_digest_str, md5_of};
use crate::error::Error;
use crate::fsprobe::{canonical_path_of, path_exists};
use crate::hex::{
    is_lower_hex, lemma_spec_hex_injective, lemma_spec_hex_is_lower_hex, lemma_spec_hex_len,
    spec_hex, to_hex_lower,
};
use crate::paths::{is_abs_path, spec_join};
use crate::uri::{file_uri_for, file_uri_of};

verus! {

/// A located thumbnail: the thumbnail file and the source path whose key
/// it answers to.
#[derive(Debug, Clone)]
pub struct Thumbnail {
    pub thumbnail: String,
    pub file: String,
}

/// The views of a sequence of strings.
pub open spec fn views_of(ss: Seq<String>) -> Seq<Seq<char>> {
    ss.map_values(|s: String| s@)
}

/// The thumbnail paths of a sequence of matches.
pub open spec fn thumb_paths(ts: Seq<Thumbnail>) -> Seq<Seq<char>> {
    ts.map_values(|t: Thumbnail| t.thumbnail@)
}

/// The cache key of a canonical URI: its MD5 digest in lowercase hex.
pub open spec fn key_of_uri(u: Seq<char>) -> Seq<char> {
    spec_hex(md5_of(u))
}

/// The cache key of an absolute path: the key of its `file://` URI.
pub open spec fn key_of_abs_path(p: Seq<char>) -> Seq<char> {
    key_of_uri(file_uri_of(p))
}

pub open spec fn png_suffix() -> Seq<char> {
    seq!['.', 'p', 'n', 'g']
}

/// The thumbnail file a key names inside one cache location.
pub open spec fn spec_candidate(loc: Seq<char>, key: Seq<char>) -> Seq<char> {
    spec_join(loc, key + png_suffix())
}

/// The thumbnail paths selected from `locs` for `key`, given which
/// candidates exist on disk (`ex`), in location order.
pub open spec fn spec_resolve_upto(
    locs: Seq<Seq<char>>,
    key: Seq<char>,
    ex: Seq<bool>,
    n: int,
) -> Seq<Seq<char>>
    decreases n,
{
    if n <= 0 {
        Seq::empty()
    } else {
        spec_resolve_upto(locs, key, ex, n - 1) + if ex[n - 1] {
            seq![spec_candidate(locs[n - 1], key)]
        } else {
            Seq::empty()
        }
    }
}

pub open spec fn spec_resolve(locs: Seq<Seq<char>>, key: Seq<char>, ex: Seq<bool>) -> Seq<
    Seq<char>,
> {
    spec_resolve_upto(locs, key, ex, locs.len() as int)
}

/// `p` is the candidate path of some 32-character lowercase-hex key under
/// one of `locs`: the only shape of path the engine ever reports for
/// deletion.
pub open spec fn is_candidate_in(locs: Seq<Seq<char>>, p: Seq<char>) -> bool {
    exists|j: int, k: Seq<char>|
        0 <= j < locs.len() && k.len() == 32 && is_lower_hex(k) && p == spec_candidate(
            locs[j],
            k,
        )
}

/// Every path resolution selects is the candidate of the resolved key
/// under one of the locations searched.
pub proof fn lemma_spec_resolve_elements(
    locs: Seq<Seq<char>>,
    key: Seq<char>,
    ex: Seq<bool>,
    n: int,
)
    requires
        n <= locs.len(),
        key.len() == 32,
        is_lower_hex(key),
    ensures
        forall|m: int|
            0 <= m < spec_resolve_upto(locs, key, ex, n).len() ==> is_candidate_in(
                locs,
                spec_resolve_upto(locs, key, ex, n)[m],
            ),
    decreases n,
{
    if n > 0 {
        lemma_spec_resolve_elements(locs, key, ex, n - 1);
        let prev = spec_resolve_upto(locs, key, ex, n - 1);
        let cur = spec_resolve_upto(locs, key, ex, n);
        assert forall|m: int| 0 <= m < cur.len() implies is_candidate_in(locs, cur[m]) by {
            if m < prev.len() {
                assert(cur[m] == prev[m]);
            } else {
                assert(cur[m] == spec_candidate(locs[n - 1], key));
            }
        }
    }
}

/// The selection up to `n` reads only the first `n` observations.
proof fn lemma_resolve_upto_agree(
    locs: Seq<Seq<char>>,
    key: Seq<char>,
    ex1: Seq<bool>,
    ex2: Seq<bool>,
    n: int,
)
    requires
        forall|m: int| 0 <= m < n ==> ex1[m] == ex2[m],
    ensures
        spec_resolve_upto(locs, key, ex1, n) == spec_resolve_upto(locs, key, ex2, n),
    decreases n,
{
    if n > 0 {
        lemma_resolve_upto_agree(locs, key, ex1, ex2, n - 1);
    }
}

/// `group` is one file's resolution: its thumbnail paths are the
/// resolution of some absolute path's key over `locs` under some
/// existence observation, and every match records `file` as its source.
pub open spec fn is_resolution_of(
    locs: Seq<Seq<char>>,
    file: Seq<char>,
    group: Seq<Thumbnail>,
) -> bool {
    exists|c: Seq<char>, ex: Seq<bool>|
        {
            &&& is_abs_path(c)
            &&& ex.len() == locs.len()
            &&& thumb_paths(group) == spec_resolve(locs, key_of_abs_path(c), ex)
            &&& forall|i: int| 0 <= i < group.len() ==> (#[trigger] group[i]).file@ == file
        }
}

/// `result` is the concatenation of one resolution group per file of
/// `files`, in order: the shape every delete scan's report has.
pub open spec fn is_resolution_concat(
    locs: Seq<Seq<char>>,
    files: Seq<Seq<char>>,
    result: Seq<Thumbnail>,
) -> bool
    decreases files.len(),
{
    if files.len() == 0 {
        result.len() == 0
    } else {
        exists|cut: int|
            {
                &&& 0 <= cut <= result.len()
                &&& is_resolution_of(locs, files[0], #[trigger] result.subrange(0, cut))
                &&& is_resolution_concat(
                    locs,
                    files.drop_first(),
                    result.subrange(cut, result.len() as int),
                )
            }
    }
}

/// Appending one more file's resolution group keeps the concatenation
/// shape.
pub proof fn lemma_resolution_concat_push(
    locs: Seq<Seq<char>>,
    files: Seq<Seq<char>>,
    result: Seq<Thumbnail>,
    file: Seq<char>,
    group: Seq<Thumbnail>,
)
    requires
        is_resolution_concat(locs, files, result),
        is_resolution_of(locs, file, group),
    ensures
        is_resolution_concat(locs, files.push(file), result + group),
    decreases files.len(),
{
    let whole = result + group;
    if files.len() == 0 {
        assert(result.len() == 0);
        assert(whole.subrange(0, group.len() as int) =~= group);
        assert(files.push(file)[0] == file);
        assert(files.push(file).drop_first() =~= Seq::<Seq<char>>::empty());
        assert(whole.subrange(group.len() as int, whole.len() as int) =~= Seq::<
            Thumbnail,
        >::empty());
        assert(is_resolution_concat(locs, files.push(file), whole)) by {
            let cut = group.len() as int;
            assert(whole.subrange(0, cut) == group);
            assert(is_resolution_of(locs, files.push(file)[0], whole.subrange(0, cut)));
            assert(whole.subrange(cut, whole.len() as int).len() == 0);
            assert(is_resolution_concat(
                locs,
                files.push(file).drop_first(),
                whole.subrange(cut, whole.len() as int),
            ));
        }
    } else {
        let cut = choose|cut: int|
            {
                &&& 0 <= cut <= result.len()
                &&& is_resolution_of(locs, files[0], #[trigger] result.subrange(0, cut))
                &&& is_resolution_concat(
                    locs,
                    files.drop_first(),
                    result.subrange(cut, result.len() as int),
                )
            };
        lemma_resolution_concat_push(
            locs,
            files.drop_first(),
            result.subrange(cut, result.len() as int),
            file,
            group,
        );
        assert(whole.subrange(0, cut) =~= result.subrange(0, cut));
        assert(files.push(file)[0] == files[0]);
        assert(files.push(file).drop_first() =~= files.drop_first().push(file));
        assert(whole.subrange(cut, whole.len() as int) =~= result.subrange(
            cut,
            result.len() as int,
        ) + group);
        assert(is_resolution_concat(locs, files.push(file), whole)) by {
            assert(is_resolution_of(locs, files.push(file)[0], whole.subrange(0, cut)));
            assert(is_resolution_concat(
                locs,
                files.push(file).drop_first(),
                whole.subrange(cut, whole.len() as int),
            ));
        }
    }
}

/// Keys collide only where the MD5 digests of the canonical URIs collide:
/// distinct digests always render as distinct keys.
pub proof fn lemma_distinct_digests_distinct_keys(u1: Seq<char>, u2: Seq<char>)
    requires
        md5_of(u1).len() == md5_of(u2).len(),
        md5_of(u1) != md5_of(u2),
    ensures
        key_of_uri(u1) != key_of_uri(u2),
{
    lemma_spec_hex_injective(md5_of(u1), md5_of(u2));
}

/// The key depends on the canonical URI alone: paths with equal canonical
/// URIs always derive equal keys.
pub proof fn lemma_key_canonicalization_invariant(p1: Seq<char>, p2: Seq<char>)
    requires
        file_uri_of(p1) == file_uri_of(p2),
    ensures
        key_of_abs_path(p1) == key_of_abs_path(p2),
{
}

/// Derives the cache key of a canonical (absolute) path: the MD5 digest
/// of its `file://` URI, rendered as 32 lowercase hex characters.
pub fn key_for_canonical(canon: &str) -> (k: String)
    requires
        is_abs_path(canon@),
    ensures
        k@ == key_of_abs_path(canon@),
        k@.len() == 32,
        is_lower_hex(k@),
{
    let uri = match file_uri_for(canon) {
        Some(u) => u,
        None => {
            // Unreachable: a URI exists for every absolute path.
            proof {
                assert(false);
            }
            String::new()
        },
    };
    let digest = md5_digest_str(uri.as_str());
    let key = to_hex_lower(&digest);
    proof {
        lemma_spec_hex_len(digest@);
        lemma_spec_hex_is_lower_hex(digest@);
    }
    key
}

/// Derives the cache key for `path`: the path is canonicalized (resolving
/// symlinks and dot components), and the canonical path's key is computed
/// by `key_for_canonical`.
///
/// A path that cannot be canonicalized (for instance, one that does not
/// exist) is an error.
pub fn derive_key(path: &str) -> (r: Result<String, Error>)
    ensures
        r matches Ok(k) ==> {
            &&& k@.len() == 32
            &&& is_lower_hex(k@)
            &&& exists|c: Seq<char>| is_abs_path(c) && k@ == key_of_abs_path(c)
        },
        r matches Err(e) ==> e matches Error::PathResolution { path: p } && p@ == path@,
{
    let canon = match canonical_path_of(path) {
        Some(c) => c,
        None => {
            return Err(Error::PathResolution { path: String::from_str(path) });
        },
    };
    let key = key_for_canonical(canon.as_str());
    Ok(key)
}

/// Builds `<loc>/<key>.png`, the candidate thumbnail path for `key` in the
/// location `loc`.
pub fn candidate_path(loc: &str, key: &str) -> (r: String)
    ensures
        r@ == spec_candidate(loc@, key@),
{
    let mut name = String::from_str(key);
    name.append(".png");
    proof {
        reveal_strlit(".png");
        assert(name@ =~= key@ + png_suffix());
    }
    crate::paths::join_path(loc, name.as_str())
}

/// Probes every location for `key`'s candidate file and appends a match
/// for each one that exists, in location order; `file` is recorded as the
/// source path of each appended match.
pub(crate) fn resolve_key_into(
    locs: &Vec<String>,
    key: &str,
    file: &str,
    acc: &mut Vec<Thumbnail>,
)
    ensures
        final(acc)@.len() >= old(acc)@.len(),
        final(acc)@.subrange(0, old(acc)@.len() as int) == old(acc)@,
        forall|i: int|
            old(acc)@.len() <= i < final(acc)@.len() ==> (#[trigger] final(acc)@[i]).file@
                == file@,
        exists|ex: Seq<bool>|
            ex.len() == locs@.len() && thumb_paths(
                final(acc)@.subrange(old(acc)@.len() as int, final(acc)@.len() as int),
            ) == spec_resolve(views_of(locs@), key@, ex),
{
    let ghost base = acc@.len() as int;
    let ghost mut ex: Seq<bool> = Seq::empty();
    let mut i: usize = 0;
    while i < locs.len()
        invariant
            i <= locs.len(),
            ex.len() == i,
            acc@.len() >= base,
            acc@.subrange(0, base) == old(acc)@,
            forall|m: int| base <= m < acc@.len() ==> (#[trigger] acc@[m]).file@ == file@,
            thumb_paths(acc@.subrange(base, acc@.len() as int)) =~= spec_resolve_upto(
                views_of(locs@),
                key@,
                ex,
                i as int,
            ),
        decreases locs.len() - i,
    {
        let cand = candidate_path(locs[i].as_str(), key);
        let ghost sub_old = acc@.subrange(base, acc@.len() as int);
        let ghost cand_view = cand@;
        let e = path_exists(cand.as_str());
        proof {
            lemma_resolve_upto_agree(views_of(locs@), key@, ex, ex.push(e), i as int);
            ex = ex.push(e);
            assert(views_of(locs@)[i as int] == locs@[i as int]@);
        }
        if e {
            let t = Thumbnail { thumbnail: cand, file: String::from_str(file) };
            acc.push(t);
        }
        proof {
            if e {
                assert(acc@.subrange(0, base) =~= old(acc)@);
                assert(thumb_paths(acc@.subrange(base, acc@.len() as int)) =~= thumb_paths(
                    sub_old,
                ).push(cand_view));
            }
            assert(spec_resolve_upto(views_of(locs@), key@, ex, i + 1) =~= thumb_paths(
                acc@.subrange(base, acc@.len() as int),
            ));
        }
        i = i + 1;
    }
    proof {
        assert(thumb_paths(acc@.subrange(base, acc@.len() as int)) == spec_resolve(
            views_of(locs@),
            key@,
            ex,
        ));
    }
}

} // verus!
