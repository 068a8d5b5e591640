//! Read-only filesystem probes. Their results describe the machine's disk
//! at the moment of the call, so nothing relates two calls to each other.
use vstd::prelude::*;
use crate::paths::{is_abs_path, single_component, spec_join};

verus! {

/// One entry found under a walked directory: its full path, its path
/// relative to the walk root, and whether it is a directory.
#[derive(Debug, Clone)]
pub struct WalkEntry {
    pub path: String,
    pub rel: String,
    pub is_dir: bool,
}

/// The shape every walk result has: each entry's relative path is
/// non-empty, its full path is the root joined with it, and a shallow
/// walk yields single components only.
pub open spec fn walk_shaped(root: Seq<char>, es: Seq<WalkEntry>, shallow: bool) -> bool {
    forall|i: int|
        0 <= i < es.len() ==> {
            &&& (#[trigger] es[i]).rel@.len() > 0
            &&& es[i].path@ == spec_join(root, es[i].rel@)
            &&& (shallow ==> single_component(es[i].rel@))
        }
}

/// Relies on `std::path::Path::exists`.
#[verifier::external_body]
pub(crate) fn path_exists(p: &str) -> bool {
    std::path::Path::new(p).exists()
}

/// Relies on `std::path::Path::is_file`.
#[verifier::external_body]
pub(crate) fn path_is_file(p: &str) -> bool {
    std::path::Path::new(p).is_file()
}

/// Relies on `std::path::Path::is_dir`.
#[verifier::external_body]
pub(crate) fn path_is_dir(p: &str) -> bool {
    std::path::Path::new(p).is_dir()
}

/// Relies on `std::path::Path::canonicalize`: a returned path is the
/// canonical, absolute form, with symlinks and dot components resolved.
#[verifier::external_body]
pub(crate) fn canonical_path_of(p: &str) -> (r: Option<String>)
    ensures
        r is Some ==> is_abs_path(r->0@),
{
    match std::path::Path::new(p).canonicalize() {
        Ok(c) => c.to_str().map(|s| s.to_owned()),
        Err(_) => None,
    }
}

/// Relies on `std::path::Path::metadata` and `Metadata::accessed`: the
/// last access time as nanoseconds since the Unix epoch, if readable.
#[verifier::external_body]
pub(crate) fn access_time_nanos(p: &str) -> (r: Option<u128>) {
    let md = std::path::Path::new(p).metadata().ok()?;
    let at = md.accessed().ok()?;
    let d = at.duration_since(std::time::UNIX_EPOCH).ok()?;
    Some(d.as_nanos())
}

/// Relies on `dirs::cache_dir`: the platform cache directory, when it is
/// known and valid UTF-8.
#[verifier::external_body]
pub(crate) fn cache_root_dir() -> (r: Option<String>) {
    dirs::cache_dir().and_then(|p| p.to_str().map(|s| s.to_owned()))
}

/// Relies on `walkdir::WalkDir`: yields the entries below `root` (never
/// `root` itself), each with its full path, its path relative to `root`,
/// and whether it is a directory; an entry that errors or whose path is
/// not valid UTF-8 is skipped. With `shallow`, descends one level only.
#[verifier::external_body]
pub(crate) fn walk_entries(root: &str, shallow: bool) -> (r: Vec<WalkEntry>)
    ensures
        walk_shaped(root@, r@, shallow),
{
    let mut walk = walkdir::WalkDir::new(root).min_depth(1);
    if shallow {
        walk = walk.max_depth(1);
    }
    let mut out = Vec::new();
    for entry in walk.into_iter().filter_map(|e| e.ok()) {
        let is_dir = entry.file_type().is_dir();
        let rel = entry.path().strip_prefix(root).ok().and_then(|q| q.to_str()).map(|s| s.to_owned());
        let path = entry.path().to_str().map(|s| s.to_owned());
        if let (Some(path), Some(rel)) = (path, rel) {
            out.push(WalkEntry { path, rel, is_dir });
        }
    }
    out
}

} // verus!
