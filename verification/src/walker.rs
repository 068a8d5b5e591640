//! Selection of walked directory entries: which files a traversal hands to
//! resolution, under the hidden-entry rule and the access-time rule.
use vstd::prelude::*;
use crate::fsprobe::WalkEntry;
use crate::paths::has_hidden_component;
use crate::paths::has_hidden_component_str;

verus! {

/// The hidden-entry rule: an entry is visible when hidden entries are
/// included, or when no component of its relative path starts with `.`.
pub open spec fn entry_visible(rel: Seq<char>, include_hidden: bool) -> bool {
    include_hidden || !has_hidden_component(rel)
}

/// A walked entry is handed to resolution exactly when it is not a
/// directory and it is visible.
pub open spec fn spec_file_keep(e: WalkEntry, include_hidden: bool) -> bool {
    !e.is_dir && entry_visible(e.rel@, include_hidden)
}

/// The indices of the entries kept among the first `n`.
pub open spec fn spec_selected_upto(s: Seq<WalkEntry>, include_hidden: bool, n: int) -> Seq<
    usize,
>
    decreases n,
{
    if n <= 0 {
        Seq::empty()
    } else {
        spec_selected_upto(s, include_hidden, n - 1) + if spec_file_keep(
            s[n - 1],
            include_hidden,
        ) {
            seq![(n - 1) as usize]
        } else {
            Seq::empty()
        }
    }
}

/// The indices of the entries a traversal keeps, in walk order.
pub open spec fn spec_selected(s: Seq<WalkEntry>, include_hidden: bool) -> Seq<usize> {
    spec_selected_upto(s, include_hidden, s.len() as int)
}

/// The access-time rule: with a threshold set, a file passes exactly when
/// its access time was read and is strictly older than the threshold.
pub open spec fn access_permits(acc: Option<u128>, threshold: u128) -> bool {
    acc matches Some(a) && a < threshold
}

/// Selects the walked entries to resolve: every non-directory entry whose
/// relative path has no hidden component (unless hidden entries are
/// included), in walk order.
pub fn select_files(entries: &Vec<WalkEntry>, include_hidden: bool) -> (r: Vec<usize>)
    ensures
        r@ == spec_selected(entries@, include_hidden),
        forall|m: int|
            0 <= m < r@.len() ==> #[trigger] r@[m] < entries@.len() && spec_file_keep(
                entries@[r@[m] as int],
                include_hidden,
            ),
{
    let mut r: Vec<usize> = Vec::new();
    let mut i: usize = 0;
    while i < entries.len()
        invariant
            i <= entries.len(),
            r@ == spec_selected_upto(entries@, include_hidden, i as int),
            forall|m: int|
                0 <= m < r@.len() ==> #[trigger] r@[m] < i && spec_file_keep(
                    entries@[r@[m] as int],
                    include_hidden,
                ),
        decreases entries.len() - i,
    {
        let e = &entries[i];
        if !e.is_dir && (include_hidden || !has_hidden_component_str(e.rel.as_str())) {
            r.push(i);
        }
        proof {
            assert(r@ =~= spec_selected_upto(entries@, include_hidden, i + 1));
        }
        i = i + 1;
    }
    r
}

/// Whether a file with access time `acc` passes the access-time filter
/// with threshold `threshold`.
pub fn access_time_permits(acc: Option<u128>, threshold: u128) -> (r: bool)
    ensures
        r == access_permits(acc, threshold),
{
    match acc {
        Some(a) => a < threshold,
        None => false,
    }
}

} // verus!
