//! Classification of cached thumbnails against their recorded origins:
//! a cache entry is an orphan when its origin URI names a local file that
//! passes the includes/excludes globs and no longer exists.
use vstd::prelude::*;
use crate::fsprobe::path_exists;
use crate::globs::{globs_match, globset_is_match, globset_patterns};
use crate::pngmeta::{
    find_thumb_uri, png_text_chunks, spec_first_value_for, spec_png_texts, thumb_uri_key,
};
use crate::uri::{local_path_of, scheme_of, uri_local_path, uri_scheme};

verus! {

/// What an orphan scan concluded about one cached PNG.
#[derive(Debug)]
pub enum ThumbAssessment {
    /// The bytes do not decode as a PNG.
    UnreadablePng,
    /// The PNG carries no `Thumb::URI` text chunk.
    NoOriginUri,
    /// The recorded origin is not a local `file://` path.
    ForeignOrigin,
    /// The origin path matches an excludes glob.
    Excluded { origin: String },
    /// The origin path matches no includes glob.
    NotIncluded { origin: String },
    /// The origin file still exists: the entry is not an orphan.
    OriginPresent { origin: String },
    /// The origin file is gone: the entry is an orphan.
    Orphan { origin: String },
}

/// The origin URI a thumbnail's bytes record, if any.
pub open spec fn spec_origin_uri_of(b: Seq<u8>) -> Option<Seq<char>> {
    match spec_png_texts(b) {
        Option::None => Option::None,
        Option::Some(ts) => spec_first_value_for(ts, thumb_uri_key()),
    }
}

/// The local path the recorded origin names, when its scheme is `file`
/// and its percent-decoded path is a valid local path.
pub open spec fn spec_local_origin_of(b: Seq<u8>) -> Option<Seq<char>> {
    match spec_origin_uri_of(b) {
        Option::None => Option::None,
        Option::Some(u) => if scheme_of(u) == Option::Some("file"@) {
            local_path_of(u)
        } else {
            Option::None
        },
    }
}

/// Classifies one cached PNG: reads its recorded origin, applies the
/// excludes and includes globs to the origin path, and probes whether the
/// origin still exists. Only `Orphan` entries are eligible for deletion;
/// the scan itself deletes nothing.
pub fn assess_thumbnail(
    bytes: &Vec<u8>,
    excludes: &globset::GlobSet,
    includes: &globset::GlobSet,
) -> (r: ThumbAssessment)
    ensures
        r is UnreadablePng <==> spec_png_texts(bytes@) is None,
        r is NoOriginUri <==> (spec_png_texts(bytes@) is Some && spec_origin_uri_of(bytes@)
            is None),
        r is ForeignOrigin <==> (spec_origin_uri_of(bytes@) is Some && spec_local_origin_of(
            bytes@,
        ) is None),
        r matches ThumbAssessment::Excluded { origin } ==> spec_local_origin_of(bytes@)
            == Option::Some(origin@) && globs_match(globset_patterns(*excludes), origin@),
        r matches ThumbAssessment::NotIncluded { origin } ==> spec_local_origin_of(bytes@)
            == Option::Some(origin@) && !globs_match(globset_patterns(*excludes), origin@)
            && !globs_match(globset_patterns(*includes), origin@),
        r matches ThumbAssessment::OriginPresent { origin } ==> spec_local_origin_of(bytes@)
            == Option::Some(origin@) && !globs_match(globset_patterns(*excludes), origin@)
            && globs_match(globset_patterns(*includes), origin@),
        r matches ThumbAssessment::Orphan { origin } ==> spec_local_origin_of(bytes@)
            == Option::Some(origin@) && !globs_match(globset_patterns(*excludes), origin@)
            && globs_match(globset_patterns(*includes), origin@),
        spec_local_origin_of(bytes@) matches Some(o) && globs_match(
            globset_patterns(*excludes),
            o,
        ) ==> r is Excluded,
        spec_local_origin_of(bytes@) matches Some(o) && !globs_match(
            globset_patterns(*excludes),
            o,
        ) && !globs_match(globset_patterns(*includes), o) ==> r is NotIncluded,
        spec_local_origin_of(bytes@) matches Some(o) && !globs_match(
            globset_patterns(*excludes),
            o,
        ) && globs_match(globset_patterns(*includes), o) ==> (r is OriginPresent || r is Orphan),
        (globset_patterns(*excludes).len() == 0 && globset_patterns(*includes) =~= seq!["**"@]
            && spec_local_origin_of(bytes@) is Some) ==> (r is OriginPresent || r is Orphan),
{
    let texts = match png_text_chunks(bytes) {
        Some(t) => t,
        None => {
            return ThumbAssessment::UnreadablePng;
        },
    };
    let uri = match find_thumb_uri(&texts) {
        Some(u) => u,
        None => {
            return ThumbAssessment::NoOriginUri;
        },
    };
    let file_scheme = String::from_str("file");
    let scheme_is_file = match uri_scheme(uri.as_str()) {
        Some(s) => s == file_scheme,
        None => false,
    };
    if !scheme_is_file {
        return ThumbAssessment::ForeignOrigin;
    }
    let origin = match uri_local_path(uri.as_str()) {
        Some(p) => p,
        None => {
            return ThumbAssessment::ForeignOrigin;
        },
    };
    if globset_is_match(excludes, origin.as_str()) {
        return ThumbAssessment::Excluded { origin };
    }
    if !globset_is_match(includes, origin.as_str()) {
        return ThumbAssessment::NotIncluded { origin };
    }
    let present = path_exists(origin.as_str());
    orphan_verdict(origin, present)
}

/// The final split of a scan-eligible entry, for each possible outcome of
/// the existence probe: a still-present origin keeps its thumbnail, a gone
/// origin makes it an orphan.
pub fn orphan_verdict(origin: String, origin_exists: bool) -> (r: ThumbAssessment)
    ensures
        origin_exists ==> (r matches ThumbAssessment::OriginPresent { origin: o } && o@
            == origin@),
        !origin_exists ==> (r matches ThumbAssessment::Orphan { origin: o } && o@ == origin@),
{
    if origin_exists {
        ThumbAssessment::OriginPresent { origin }
    } else {
        ThumbAssessment::Orphan { origin }
    }
}

} // verus!
