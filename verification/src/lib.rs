//! Locates and reconciles cached thumbnail images kept under the
//! freedesktop.org thumbnail-cache layout: a thumbnail for a source file is a
//! PNG stored under a cache directory, named by the MD5 hex digest of the
//! source file's canonical `file://` URI, with the origin URI embedded in a
//! PNG text chunk.
//!
//! The crate never removes files itself: every operation reports the
//! thumbnail entries it found or classified, and callers apply deletions to
//! the reported paths.
#![verifier::loop_isolation(false)]
use vstd::prelude::*;

pub mod cli;
pub mod digest;
pub mod error;
pub mod fsprobe;
pub mod globs;
pub mod hex;
pub mod orphan;
pub mod paths;
pub mod pngmeta;
pub mod resolver;
pub mod uri;
pub mod walker;

pub use crate::error::Error;
pub use crate::resolver::Thumbnail;

use crate::fsprobe::{
    access_time_nanos, cache_root_dir, path_is_dir, path_is_file, walk_entries, walk_shaped,
    WalkEntry,
};
use crate::paths::{has_png_ext, is_abs_path, join_path, single_component, spec_join};
use crate::resolver::{
    derive_key, is_candidate_in, is_resolution_concat, is_resolution_of, key_of_abs_path,
    lemma_resolution_concat_push, resolve_key_into, spec_resolve, thumb_paths, views_of,
};
use crate::walker::{entry_visible, select_files};

verus! {

/// The directory all cache locations live under: `<cache>/thumbnails`.
pub open spec fn spec_thumbnails_root(cache: Seq<char>) -> Seq<char> {
    spec_join(cache, "thumbnails"@)
}

/// `p` lies directly or indirectly under the directory `dir`.
pub open spec fn is_under(dir: Seq<char>, p: Seq<char>) -> bool {
    exists|rel: Seq<char>| rel.len() > 0 && p == #[trigger] spec_join(dir, rel)
}

/// `f` is one of the input paths, or lies under one of them.
pub open spec fn from_input(inputs: Seq<Seq<char>>, f: Seq<char>) -> bool {
    exists|j: int| 0 <= j < inputs.len() && (f == #[trigger] inputs[j] || is_under(inputs[j], f))
}

/// `p` is an entry one level under the scanned location `loc` that names
/// a `.png` file and passes the hidden-entry rule.
pub open spec fn is_location_scan_entry(
    loc: Seq<char>,
    p: Seq<char>,
    include_hidden: bool,
) -> bool {
    exists|rel: Seq<char>|
        {
            &&& rel.len() > 0
            &&& single_component(rel)
            &&& p == #[trigger] spec_join(loc, rel)
            &&& has_png_ext(rel)
            &&& entry_visible(rel, include_hidden)
        }
}

/// `p` is a scan entry of one of the scanned locations.
pub open spec fn is_scan_candidate(
    locs: Seq<Seq<char>>,
    p: Seq<char>,
    include_hidden: bool,
) -> bool {
    exists|j: int|
        0 <= j < locs.len() && is_location_scan_entry(#[trigger] locs[j], p, include_hidden)
}

/// The full paths of the directory entries among `es`, in walk order.
pub open spec fn spec_dir_paths_upto(es: Seq<WalkEntry>, n: int) -> Seq<Seq<char>>
    decreases n,
{
    if n <= 0 {
        Seq::empty()
    } else {
        spec_dir_paths_upto(es, n - 1) + if es[n - 1].is_dir {
            seq![es[n - 1].path@]
        } else {
            Seq::empty()
        }
    }
}

pub open spec fn spec_dir_paths(es: Seq<WalkEntry>) -> Seq<Seq<char>> {
    spec_dir_paths_upto(es, es.len() as int)
}

/// An orphan scan keeps a walked entry when it is a visible `.png` file.
pub open spec fn spec_scan_keep(e: WalkEntry, include_hidden: bool) -> bool {
    !e.is_dir && entry_visible(e.rel@, include_hidden) && has_png_ext(e.rel@)
}

/// The full paths of the kept entries among `es`, in walk order.
pub open spec fn spec_scan_paths_upto(es: Seq<WalkEntry>, include_hidden: bool, n: int) -> Seq<
    Seq<char>,
>
    decreases n,
{
    if n <= 0 {
        Seq::empty()
    } else {
        spec_scan_paths_upto(es, include_hidden, n - 1) + if spec_scan_keep(
            es[n - 1],
            include_hidden,
        ) {
            seq![es[n - 1].path@]
        } else {
            Seq::empty()
        }
    }
}

pub open spec fn spec_scan_paths(es: Seq<WalkEntry>, include_hidden: bool) -> Seq<Seq<char>> {
    spec_scan_paths_upto(es, include_hidden, es.len() as int)
}

/// How many of the first `n` observations are set.
pub open spec fn spec_count_true_upto(d: Seq<bool>, n: int) -> int
    decreases n,
{
    if n <= 0 {
        0
    } else {
        spec_count_true_upto(d, n - 1) + if d[n - 1] {
            1int
        } else {
            0int
        }
    }
}

pub open spec fn spec_count_true(d: Seq<bool>) -> int {
    spec_count_true_upto(d, d.len() as int)
}

/// The count up to `n` reads only the first `n` observations.
proof fn lemma_count_upto_agree(d1: Seq<bool>, d2: Seq<bool>, n: int)
    requires
        forall|m: int| 0 <= m < n ==> d1[m] == d2[m],
    ensures
        spec_count_true_upto(d1, n) == spec_count_true_upto(d2, n),
    decreases n,
{
    if n > 0 {
        lemma_count_upto_agree(d1, d2, n - 1);
    }
}

/// The shape of a delete scan's report: a concatenation of one
/// resolution group per scanned file, each file an input path or a leaf
/// under one.
pub open spec fn delete_report_shape(
    locs: Seq<Seq<char>>,
    inputs: Seq<Seq<char>>,
    report: Seq<Thumbnail>,
) -> bool {
    exists|files: Seq<Seq<char>>|
        {
            &&& forall|j: int| 0 <= j < files.len() ==> from_input(inputs, #[trigger] files[j])
            &&& #[trigger] is_resolution_concat(locs, files, report)
        }
}

/// A count saturated at `u32::MAX`.
pub open spec fn capped_u32(c: int) -> int {
    if c > u32::MAX as int {
        u32::MAX as int
    } else {
        c
    }
}

/// The discovered cache locations: the `normal` and `large` stores of some
/// cache root first, then exactly the directories a one-level walk of the
/// root's `fail` store yielded, in walk order.
pub open spec fn valid_locations(locs: Seq<Seq<char>>) -> bool {
    exists|cache: Seq<char>, es: Seq<WalkEntry>|
        #![trigger spec_thumbnails_root(cache), spec_dir_paths(es)]
        {
            &&& locs.len() >= 2
            &&& locs[0] == spec_join(spec_thumbnails_root(cache), "normal"@)
            &&& locs[1] == spec_join(spec_thumbnails_root(cache), "large"@)
            &&& walk_shaped(spec_join(spec_thumbnails_root(cache), "fail"@), es, true)
            &&& locs.subrange(2, locs.len() as int) == spec_dir_paths(es)
        }
}

/// Discovers the cache locations under the platform cache directory:
/// `thumbnails/normal` and `thumbnails/large` always (whether or not they
/// exist yet), and one location per immediate subdirectory of
/// `thumbnails/fail`, where thumbnailer tools record failed attempts.
fn find_cache_locations() -> (r: Result<Vec<String>, Error>)
    ensures
        r matches Ok(v) ==> v@.len() >= 2 && valid_locations(views_of(v@)),
        r matches Err(e) ==> e is CacheDirUnavailable,
{
    let root = match cache_root_dir() {
        Some(c) => c,
        None => {
            return Err(Error::CacheDirUnavailable);
        },
    };
    let thumbs_root = join_path(root.as_str(), "thumbnails");
    let normal = join_path(thumbs_root.as_str(), "normal");
    let large = join_path(thumbs_root.as_str(), "large");
    let fail_root = join_path(thumbs_root.as_str(), "fail");
    let mut locs: Vec<String> = Vec::new();
    locs.push(normal);
    locs.push(large);
    let entries = walk_entries(fail_root.as_str(), true);
    let mut i: usize = 0;
    while i < entries.len()
        invariant
            i <= entries.len(),
            locs@.len() >= 2,
            views_of(locs@)[0] == spec_join(spec_thumbnails_root(root@), "normal"@),
            views_of(locs@)[1] == spec_join(spec_thumbnails_root(root@), "large"@),
            fail_root@ == spec_join(spec_thumbnails_root(root@), "fail"@),
            walk_shaped(fail_root@, entries@, true),
            views_of(locs@).subrange(2, locs@.len() as int) =~= spec_dir_paths_upto(
                entries@,
                i as int,
            ),
        decreases entries.len() - i,
    {
        let e = &entries[i];
        let ghost before = locs@;
        if e.is_dir {
            let p = e.path.clone();
            locs.push(p);
            proof {
                assert(views_of(locs@) =~= views_of(before).push(entries@[i as int].path@));
            }
        }
        proof {
            assert(views_of(locs@).subrange(2, locs@.len() as int) =~= spec_dir_paths_upto(
                entries@,
                i + 1,
            ));
        }
        i = i + 1;
    }
    proof {
        assert(valid_locations(views_of(locs@))) by {
            assert(views_of(locs@)[0] == spec_join(spec_thumbnails_root(root@), "normal"@));
            assert(views_of(locs@).subrange(2, locs@.len() as int) == spec_dir_paths(entries@));
        }
    }
    Ok(locs)
}

/// The thumbnail engine: searches the discovered cache locations for the
/// thumbnails of given files, and scans them for orphaned entries.
///
/// `recursive` and `hidden` configure directory traversal: whether
/// directories among the input paths are descended into, and whether
/// hidden entries take part.
#[derive(Debug)]
pub struct UnThumbnailer {
    pub recursive: bool,
    pub hidden: bool,
    pub cache_locs: Vec<String>,
}

/// The result of a delete scan: the matches found, and how many input
/// directories were ignored because recursion was disabled.
#[derive(Debug)]
pub struct DeleteResults {
    pub thumbnail_paths: Vec<Thumbnail>,
    pub ignored_directories: u32,
}

impl UnThumbnailer {
    /// The engine searched at least the two standard cache locations.
    pub open spec fn wf(&self) -> bool {
        self.cache_locs@.len() >= 2
    }

    /// The cache locations searched, in search order.
    pub open spec fn locations(&self) -> Seq<Seq<char>> {
        views_of(self.cache_locs@)
    }

    /// The locations the orphan scan covers: the standard `normal` and
    /// `large` stores, never the `fail` store.
    pub open spec fn scan_locations(&self) -> Seq<Seq<char>> {
        self.locations().subrange(0, 2)
    }

    /// Creates an engine over the discovered cache locations.
    pub fn new(recursive: bool, hidden: bool) -> (r: Result<Self, Error>)
        ensures
            r matches Ok(u) ==> {
                &&& u.wf()
                &&& u.recursive == recursive
                &&& u.hidden == hidden
                &&& valid_locations(u.locations())
            },
            r matches Err(e) ==> e is CacheDirUnavailable,
    {
        let cache_locs = find_cache_locations()?;
        Ok(UnThumbnailer { recursive, hidden, cache_locs })
    }

    /// Locates the thumbnails cached for `path`: one match per cache
    /// location that holds a file named by `path`'s key. Finding none is
    /// not an error; a path that cannot be canonicalized is.
    pub fn locate(&self, path: &str) -> (r: Result<Vec<Thumbnail>, Error>)
        requires
            self.wf(),
        ensures
            r matches Ok(v) ==> {
                &&& forall|i: int| 0 <= i < v@.len() ==> (#[trigger] v@[i]).file@ == path@
                &&& forall|i: int|
                    0 <= i < v@.len() ==> is_candidate_in(
                        self.locations(),
                        (#[trigger] v@[i]).thumbnail@,
                    )
                &&& exists|c: Seq<char>, ex: Seq<bool>|
                    {
                        &&& is_abs_path(c)
                        &&& ex.len() == self.locations().len()
                        &&& thumb_paths(v@) == spec_resolve(
                            self.locations(),
                            key_of_abs_path(c),
                            ex,
                        )
                    }
            },
            r matches Err(e) ==> e matches Error::PathResolution { path: p } && p@ == path@,
    {
        let key = match derive_key(path) {
            Ok(k) => k,
            Err(e) => {
                return Err(e);
            },
        };
        let mut acc: Vec<Thumbnail> = Vec::new();
        resolve_key_into(&self.cache_locs, key.as_str(), path, &mut acc);
        proof {
            assert(acc@.subrange(0, acc@.len() as int) =~= acc@);
            let c = choose|c: Seq<char>| is_abs_path(c) && key@ == key_of_abs_path(c);
            let ex = choose|ex: Seq<bool>|
                ex.len() == self.cache_locs@.len() && thumb_paths(
                    acc@.subrange(0, acc@.len() as int),
                ) == spec_resolve(views_of(self.cache_locs@), key@, ex);
            crate::resolver::lemma_spec_resolve_elements(
                self.locations(),
                key@,
                ex,
                self.locations().len() as int,
            );
            assert forall|i: int| 0 <= i < acc@.len() implies is_candidate_in(
                self.locations(),
                (#[trigger] acc@[i]).thumbnail@,
            ) by {
                assert(thumb_paths(acc@)[i] == acc@[i].thumbnail@);
            }
            assert(thumb_paths(acc@) == spec_resolve(self.locations(), key_of_abs_path(c), ex));
        }
        Ok(acc)
    }

    /// Scans for the thumbnails of the files at `paths` and reports every
    /// match found, together with how many input directories were ignored
    /// because recursion is disabled.
    ///
    /// An input path that is a regular file is resolved directly. An input
    /// directory is ignored (and counted) unless the engine is recursive,
    /// in which case its subtree is traversed, subject to the hidden-entry
    /// rule. With `last_accessed` set, only files whose access time is
    /// strictly older than the threshold (in nanoseconds since the Unix
    /// epoch) are resolved; a file whose access time cannot be read is
    /// skipped.
    ///
    /// Every reported match names a `<location>/<key>.png` candidate file
    /// under one of the engine's cache locations, for the input path or
    /// walked leaf recorded in its `file` field: deletion applied to the
    /// report can never touch anything but cache entries.
    pub fn delete(&self, paths: &Vec<String>, last_accessed: Option<u128>) -> (r: Result<
        DeleteResults,
        Error,
    >)
        requires
            self.wf(),
        ensures
            r matches Ok(dr) ==> forall|i: int|
                0 <= i < dr.thumbnail_paths@.len() ==> is_candidate_in(
                    self.locations(),
                    (#[trigger] dr.thumbnail_paths@[i]).thumbnail@,
                ),
            r matches Ok(dr) ==> forall|i: int|
                0 <= i < dr.thumbnail_paths@.len() ==> from_input(
                    views_of(paths@),
                    (#[trigger] dr.thumbnail_paths@[i]).file@,
                ),
            r matches Ok(dr) ==> {
                &&& (self.recursive ==> dr.ignored_directories == 0)
                &&& dr.ignored_directories as int <= paths@.len()
                &&& exists|d: Seq<bool>|
                    d.len() == paths@.len() && dr.ignored_directories as int == capped_u32(
                        spec_count_true(d),
                    )
            },
            r matches Ok(dr) ==> delete_report_shape(
                self.locations(),
                views_of(paths@),
                dr.thumbnail_paths@,
            ),
            paths@.len() == 0 ==> (r matches Ok(dr) && dr.thumbnail_paths@.len() == 0
                && dr.ignored_directories == 0),
            r matches Err(e) ==> e is PathResolution,
    {
        let mut acc: Vec<Thumbnail> = Vec::new();
        let mut ignored: u32 = 0;
        let ghost mut d: Seq<bool> = Seq::empty();
        let ghost mut files: Seq<Seq<char>> = Seq::empty();
        let mut p: usize = 0;
        while p < paths.len()
            invariant
                p <= paths.len(),
                d.len() == p,
                forall|j: int|
                    0 <= j < files.len() ==> from_input(views_of(paths@), #[trigger] files[j]),
                is_resolution_concat(self.locations(), files, acc@),
                ignored as int == capped_u32(spec_count_true_upto(d, p as int)),
                spec_count_true_upto(d, p as int) <= p,
                self.recursive ==> ignored == 0,
                forall|i: int|
                    0 <= i < acc@.len() ==> is_candidate_in(
                        self.locations(),
                        (#[trigger] acc@[i]).thumbnail@,
                    ),
                forall|i: int|
                    0 <= i < acc@.len() ==> from_input(
                        views_of(paths@),
                        (#[trigger] acc@[i]).file@,
                    ),
                paths@.len() == 0 ==> acc@.len() == 0 && ignored == 0,
            decreases paths.len() - p,
        {
            let path = &paths[p];
            proof {
                assert(views_of(paths@)[p as int] == paths@[p as int]@);
            }
            if path_is_file(path.as_str()) {
                let ghost before = acc@.len() as int;
                let ghost prev_acc = acc@;
                match self.resolve_one(path.as_str(), &mut acc) {
                    Ok(()) => {},
                    Err(e) => {
                        return Err(e);
                    },
                }
                proof {
                    assert forall|i: int| before <= i < acc@.len() implies from_input(
                        views_of(paths@),
                        (#[trigger] acc@[i]).file@,
                    ) by {
                        assert(acc@[i].file@ == views_of(paths@)[p as int]);
                    }
                    let group = acc@.subrange(before, acc@.len() as int);
                    assert(acc@ =~= prev_acc + group);
                    lemma_resolution_concat_push(
                        self.locations(),
                        files,
                        prev_acc,
                        paths@[p as int]@,
                        group,
                    );
                    files = files.push(paths@[p as int]@);
                    lemma_count_upto_agree(d, d.push(false), p as int);
                    d = d.push(false);
                }
            } else if !self.recursive {
                let isdir = path_is_dir(path.as_str());
                if isdir {
                    if ignored < u32::MAX {
                        ignored = ignored + 1;
                    }
                }
                proof {
                    lemma_count_upto_agree(d, d.push(isdir), p as int);
                    d = d.push(isdir);
                    assert(spec_count_true_upto(d, p + 1) == spec_count_true_upto(d, p as int)
                        + if isdir { 1int } else { 0int });
                }
            } else {
                let entries = walk_entries(path.as_str(), false);
                let sel = select_files(&entries, self.hidden);
                let mut s: usize = 0;
                while s < sel.len()
                    invariant
                        s <= sel.len(),
                        p < paths.len(),
                        walk_shaped(paths@[p as int]@, entries@, false),
                        forall|j: int|
                            0 <= j < files.len() ==> from_input(
                                views_of(paths@),
                                #[trigger] files[j],
                            ),
                        is_resolution_concat(self.locations(), files, acc@),
                        forall|i: int|
                            0 <= i < acc@.len() ==> is_candidate_in(
                                self.locations(),
                                (#[trigger] acc@[i]).thumbnail@,
                            ),
                        forall|i: int|
                            0 <= i < acc@.len() ==> from_input(
                                views_of(paths@),
                                (#[trigger] acc@[i]).file@,
                            ),
                        forall|m: int|
                            0 <= m < sel@.len() ==> #[trigger] sel@[m] < entries@.len(),
                    decreases sel.len() - s,
                {
                    let e = &entries[sel[s]];
                    let pass = match last_accessed {
                        Some(t) => crate::walker::access_time_permits(
                            access_time_nanos(e.path.as_str()),
                            t,
                        ),
                        None => true,
                    };
                    if pass {
                        let ghost before = acc@.len() as int;
                        let ghost prev_acc = acc@;
                        let ghost entry = entries@[sel@[s as int] as int];
                        match self.resolve_one(e.path.as_str(), &mut acc) {
                            Ok(()) => {},
                            Err(e) => {
                                return Err(e);
                            },
                        }
                        proof {
                            assert forall|i: int| before <= i < acc@.len() implies from_input(
                                views_of(paths@),
                                (#[trigger] acc@[i]).file@,
                            ) by {
                                assert(acc@[i].file@ == entry.path@);
                                assert(entry.path@ == spec_join(paths@[p as int]@, entry.rel@));
                                assert(is_under(paths@[p as int]@, entry.path@));
                                assert(views_of(paths@)[p as int] == paths@[p as int]@);
                            }
                            let group = acc@.subrange(before, acc@.len() as int);
                            assert(acc@ =~= prev_acc + group);
                            lemma_resolution_concat_push(
                                self.locations(),
                                files,
                                prev_acc,
                                entry.path@,
                                group,
                            );
                            files = files.push(entry.path@);
                            assert(from_input(views_of(paths@), entry.path@)) by {
                                assert(is_under(paths@[p as int]@, entry.path@));
                                assert(views_of(paths@)[p as int] == paths@[p as int]@);
                            }
                        }
                    }
                    s = s + 1;
                }
                proof {
                    lemma_count_upto_agree(d, d.push(false), p as int);
                    d = d.push(false);
                }
            }
            p = p + 1;
        }
        proof {
            assert(d.len() == paths@.len());
            assert(ignored as int == capped_u32(spec_count_true(d)));
            assert(delete_report_shape(self.locations(), views_of(paths@), acc@)) by {
                assert(is_resolution_concat(self.locations(), files, acc@));
            }
        }
        Ok(DeleteResults { thumbnail_paths: acc, ignored_directories: ignored })
    }

    /// Lists the cached PNGs an orphan scan should assess: exactly the
    /// entries a one-level walk of the standard `normal` and `large`
    /// stores yielded that are `.png` files and pass the hidden-entry
    /// rule, in walk order. The `fail` store is never scanned for
    /// orphans.
    pub fn cleanup_candidates(&self) -> (r: Vec<String>)
        requires
            self.wf(),
        ensures
            forall|i: int|
                0 <= i < r@.len() ==> is_scan_candidate(
                    self.scan_locations(),
                    (#[trigger] r@[i])@,
                    self.hidden,
                ),
            exists|es0: Seq<WalkEntry>, es1: Seq<WalkEntry>|
                {
                    &&& walk_shaped(self.scan_locations()[0], es0, true)
                    &&& walk_shaped(self.scan_locations()[1], es1, true)
                    &&& views_of(r@) == spec_scan_paths(es0, self.hidden) + spec_scan_paths(
                        es1,
                        self.hidden,
                    )
                },
    {
        let mut r: Vec<String> = Vec::new();
        scan_one_location(&self.cache_locs[0], self.hidden, &mut r);
        let ghost cut = r@.len() as int;
        let ghost es0 = choose|es: Seq<WalkEntry>|
            walk_shaped(self.cache_locs@[0]@, es, true) && views_of(
                r@.subrange(0, r@.len() as int),
            ) == spec_scan_paths(es, self.hidden);
        let ghost first = r@;
        scan_one_location(&self.cache_locs[1], self.hidden, &mut r);
        proof {
            let es1 = choose|es: Seq<WalkEntry>|
                walk_shaped(self.cache_locs@[1]@, es, true) && views_of(
                    r@.subrange(cut, r@.len() as int),
                ) == spec_scan_paths(es, self.hidden);
            assert(self.scan_locations()[0] == self.cache_locs@[0]@);
            assert(self.scan_locations()[1] == self.cache_locs@[1]@);
            assert(r@.subrange(0, cut) == first);
            assert(views_of(first.subrange(0, cut)) == spec_scan_paths(es0, self.hidden));
            assert(views_of(r@) =~= views_of(r@.subrange(0, cut)) + views_of(
                r@.subrange(cut, r@.len() as int),
            ));
            assert(views_of(r@) == spec_scan_paths(es0, self.hidden) + spec_scan_paths(
                es1,
                self.hidden,
            ));
            assert forall|i: int| 0 <= i < r@.len() implies is_scan_candidate(
                self.scan_locations(),
                (#[trigger] r@[i])@,
                self.hidden,
            ) by {
                if i < cut {
                    assert(r@[i] == first[i]);
                    assert(is_location_scan_entry(self.cache_locs@[0]@, r@[i]@, self.hidden));
                } else {
                    assert(is_location_scan_entry(self.cache_locs@[1]@, r@[i]@, self.hidden));
                }
            }
        }
        r
    }

    /// Resolves one file's thumbnails into `acc`: every appended match is
    /// a candidate under one of the engine's locations and records `path`
    /// as its source file.
    fn resolve_one(&self, path: &str, acc: &mut Vec<Thumbnail>) -> (r: Result<(), Error>)
        requires
            self.wf(),
        ensures
            forall|i: int|
                0 <= i < final(acc)@.len() ==> (0 <= i < old(acc)@.len() ==> final(acc)@[i]
                    == old(acc)@[i]) && (old(acc)@.len() <= i ==> is_candidate_in(
                    self.locations(),
                    (#[trigger] final(acc)@[i]).thumbnail@,
                ) && final(acc)@[i].file@ == path@),
            final(acc)@.len() >= old(acc)@.len(),
            r is Ok ==> is_resolution_of(
                self.locations(),
                path@,
                final(acc)@.subrange(old(acc)@.len() as int, final(acc)@.len() as int),
            ),
            r matches Err(e) ==> e is PathResolution && final(acc)@ == old(acc)@,
    {
        let key = match derive_key(path) {
            Ok(k) => k,
            Err(e) => {
                return Err(e);
            },
        };
        let ghost base = acc@.len() as int;
        resolve_key_into(&self.cache_locs, key.as_str(), path, acc);
        proof {
            let ex = choose|ex: Seq<bool>|
                ex.len() == self.cache_locs@.len() && thumb_paths(
                    acc@.subrange(base, acc@.len() as int),
                ) == spec_resolve(views_of(self.cache_locs@), key@, ex);
            crate::resolver::lemma_spec_resolve_elements(
                self.locations(),
                key@,
                ex,
                self.locations().len() as int,
            );
            assert forall|i: int| base <= i < acc@.len() implies is_candidate_in(
                self.locations(),
                (#[trigger] acc@[i]).thumbnail@,
            ) by {
                let sub = acc@.subrange(base, acc@.len() as int);
                assert(thumb_paths(sub)[i - base] == sub[i - base].thumbnail@);
                assert(sub[i - base] == acc@[i]);
            }
            assert(forall|i: int|
                0 <= i < base ==> acc@[i] == #[trigger] acc@.subrange(0, base)[i]);
            let c = choose|c: Seq<char>| is_abs_path(c) && key@ == key_of_abs_path(c);
            let sub = acc@.subrange(base, acc@.len() as int);
            assert(thumb_paths(sub) == spec_resolve(
                self.locations(),
                key_of_abs_path(c),
                ex,
            ));
            assert(forall|i: int| 0 <= i < sub.len() ==> (#[trigger] sub[i]).file@ == path@);
            assert(is_resolution_of(self.locations(), path@, sub));
        }
        Ok(())
    }
}

/// Appends the scan entries of one cache location to `acc`: exactly the
/// entries a one-level walk yielded that are visible `.png` files, in
/// walk order.
fn scan_one_location(loc: &String, include_hidden: bool, acc: &mut Vec<String>)
    ensures
        final(acc)@.len() >= old(acc)@.len(),
        final(acc)@.subrange(0, old(acc)@.len() as int) == old(acc)@,
        forall|i: int|
            old(acc)@.len() <= i < final(acc)@.len() ==> is_location_scan_entry(
                loc@,
                (#[trigger] final(acc)@[i])@,
                include_hidden,
            ),
        exists|es: Seq<WalkEntry>|
            walk_shaped(loc@, es, true) && views_of(
                final(acc)@.subrange(old(acc)@.len() as int, final(acc)@.len() as int),
            ) == spec_scan_paths(es, include_hidden),
{
    let ghost base = acc@.len() as int;
    let entries = walk_entries(loc.as_str(), true);
    let mut k: usize = 0;
    while k < entries.len()
        invariant
            k <= entries.len(),
            walk_shaped(loc@, entries@, true),
            acc@.len() >= base,
            acc@.subrange(0, base) == old(acc)@,
            forall|i: int|
                base <= i < acc@.len() ==> is_location_scan_entry(
                    loc@,
                    (#[trigger] acc@[i])@,
                    include_hidden,
                ),
            views_of(acc@.subrange(base, acc@.len() as int)) =~= spec_scan_paths_upto(
                entries@,
                include_hidden,
                k as int,
            ),
        decreases entries.len() - k,
    {
        let e = &entries[k];
        let ghost before = acc@;
        if !e.is_dir && (include_hidden || !crate::paths::has_hidden_component_str(
            e.rel.as_str(),
        )) && crate::paths::has_png_ext_str(e.rel.as_str()) {
            acc.push(e.path.clone());
            proof {
                assert(acc@.subrange(0, base) =~= before.subrange(0, base));
                assert(acc@.subrange(base, acc@.len() as int) =~= before.subrange(
                    base,
                    before.len() as int,
                ).push(acc@[acc@.len() - 1]));
                assert(views_of(acc@.subrange(base, acc@.len() as int)) =~= views_of(
                    before.subrange(base, before.len() as int),
                ).push(entries@[k as int].path@));
                assert(entries@[k as int].path@ == spec_join(loc@, entries@[k as int].rel@));
                assert(is_location_scan_entry(loc@, entries@[k as int].path@, include_hidden));
            }
        }
        proof {
            assert(views_of(acc@.subrange(base, acc@.len() as int)) =~= spec_scan_paths_upto(
                entries@,
                include_hidden,
                k + 1,
            ));
        }
        k = k + 1;
    }
    proof {
        assert(views_of(acc@.subrange(base, acc@.len() as int)) == spec_scan_paths(
            entries@,
            include_hidden,
        ));
    }
}

} // verus!
