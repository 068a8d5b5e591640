//! POSIX-style path strings: absoluteness, hidden components, the `.png`
//! extension, and joining a directory with a relative entry.
use vstd::prelude::*;

verus! {

/// An absolute POSIX path starts with `/`.
pub open spec fn is_abs_path(p: Seq<char>) -> bool {
    p.len() > 0 && p[0] == '/'
}

/// A hidden entry name starts with `.`.
pub open spec fn is_hidden_name(n: Seq<char>) -> bool {
    n.len() > 0 && n[0] == '.'
}

/// Some component of the relative path `p` is hidden: a `.` stands at the
/// start or right after a `/`.
pub open spec fn has_hidden_component(p: Seq<char>) -> bool {
    exists|i: int| 0 <= i < p.len() && #[trigger] p[i] == '.' && (i == 0 || p[i - 1] == '/')
}

/// The name ends in `.png` with a non-empty stem, as `Path::extension`
/// reads it.
pub open spec fn has_png_ext(n: Seq<char>) -> bool {
    &&& n.len() >= 5
    &&& n[n.len() - 4] == '.'
    &&& n[n.len() - 3] == 'p'
    &&& n[n.len() - 2] == 'n'
    &&& n[n.len() - 1] == 'g'
}

/// `rel` is a single path component: it holds no separator.
pub open spec fn single_component(rel: Seq<char>) -> bool {
    forall|j: int| 0 <= j < rel.len() ==> #[trigger] rel[j] != '/'
}

/// Joining a directory path with a relative path, inserting `/` unless the
/// directory already ends in one.
pub open spec fn spec_join(dir: Seq<char>, rel: Seq<char>) -> Seq<char> {
    if dir.len() > 0 && dir[dir.len() - 1] == '/' {
        dir + rel
    } else {
        dir + seq!['/'] + rel
    }
}

/// Whether `name` denotes a hidden entry, by the Unix dot convention.
pub fn is_hidden_unix(name: &str) -> (r: bool)
    ensures
        r == is_hidden_name(name@),
{
    if name.is_empty() {
        false
    } else {
        name.get_char(0) == '.'
    }
}

/// Whether any component of the relative path `p` is hidden.
pub fn has_hidden_component_str(p: &str) -> (r: bool)
    ensures
        r == has_hidden_component(p@),
{
    let n = p.unicode_len();
    let mut i: usize = 0;
    while i < n
        invariant
            i <= n,
            n == p@.len(),
            forall|j: int| 0 <= j < i ==> !(#[trigger] p@[j] == '.' && (j == 0 || p@[j - 1] == '/')),
        decreases n - i,
    {
        if p.get_char(i) == '.' {
            if i == 0 || p.get_char(i - 1) == '/' {
                return true;
            }
        }
        i = i + 1;
    }
    false
}

/// Whether `name` ends in `.png` with a non-empty stem.
pub fn has_png_ext_str(name: &str) -> (r: bool)
    ensures
        r == has_png_ext(name@),
{
    let n = name.unicode_len();
    if n < 5 {
        return false;
    }
    name.get_char(n - 4) == '.' && name.get_char(n - 3) == 'p' && name.get_char(n - 2) == 'n'
        && name.get_char(n - 1) == 'g'
}

/// Joins a directory path and a relative path with `/`.
pub fn join_path(dir: &str, rel: &str) -> (r: String)
    ensures
        r@ == spec_join(dir@, rel@),
{
    let n = dir.unicode_len();
    let mut s = String::from_str(dir);
    if n == 0 || dir.get_char(n - 1) != '/' {
        s.append("/");
        proof {
            reveal_strlit("/");
            assert(s@ =~= dir@ + seq!['/']);
        }
    }
    s.append(rel);
    proof {
        if !(dir@.len() > 0 && dir@[dir@.len() - 1] == '/') {
            assert(s@ =~= dir@ + seq!['/'] + rel@);
        }
    }
    s
}

} // verus!
