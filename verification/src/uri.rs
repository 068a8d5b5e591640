//! Conversions between filesystem paths and `file://` URIs.
use vstd::prelude::*;
use crate::paths::is_abs_path;

verus! {

/// The `file://` URI of an absolute path: percent-encoded per URI rules.
pub uninterp spec fn file_uri_of(p: Seq<char>) -> Seq<char>;

/// The scheme of a URI string, if it parses as a URI.
pub uninterp spec fn scheme_of(u: Seq<char>) -> Option<Seq<char>>;

/// The local filesystem path a URI names, if it parses and its
/// percent-decoded path is a valid UTF-8 local path.
pub uninterp spec fn local_path_of(u: Seq<char>) -> Option<Seq<char>>;

/// Relies on `url::Url::from_file_path`: on POSIX it succeeds exactly on
/// absolute paths, and the URI depends on the path alone.
#[verifier::external_body]
pub(crate) fn file_uri_for(path: &str) -> (r: Option<String>)
    ensures
        r is Some <==> is_abs_path(path@),
        r is Some ==> r->0@ == file_uri_of(path@),
{
    match url::Url::from_file_path(path) {
        Ok(u) => Some(u.as_str().to_owned()),
        Err(()) => None,
    }
}

/// Relies on `url::Url::parse` and `url::Url::scheme`: whether a string
/// parses, and its scheme, depend on the string alone.
#[verifier::external_body]
pub(crate) fn uri_scheme(uri: &str) -> (r: Option<String>)
    ensures
        r is Some <==> scheme_of(uri@) is Some,
        r is Some ==> scheme_of(uri@) == Some(r->0@),
{
    match url::Url::parse(uri) {
        Ok(u) => Some(u.scheme().to_owned()),
        Err(_) => None,
    }
}

/// Relies on `url::Url::parse` and `url::Url::to_file_path`: both depend on
/// the URI string alone, and a returned path is absolute.
#[verifier::external_body]
pub(crate) fn uri_local_path(uri: &str) -> (r: Option<String>)
    ensures
        r is Some <==> local_path_of(uri@) is Some,
        r is Some ==> local_path_of(uri@) == Some(r->0@) && is_abs_path(r->0@),
{
    match url::Url::parse(uri) {
        Ok(u) => match u.to_file_path() {
            Ok(p) => p.to_str().map(|s| s.to_owned()),
            Err(()) => None,
        },
        Err(_) => None,
    }
}

} // verus!
