//! Include/exclude filtering of origin paths with gitignore-style globs,
//! compiled once before a scan begins.
use vstd::prelude::*;
use crate::error::Error;
use crate::resolver::views_of;

verus! {

#[verifier::external_type_specification]
#[verifier::external_body]
pub struct ExGlobSet(globset::GlobSet);

#[verifier::external_type_specification]
#[verifier::external_body]
pub struct ExGlobSetBuilder(globset::GlobSetBuilder);

/// The patterns a builder holds so far, in insertion order.
pub uninterp spec fn builder_patterns(b: globset::GlobSetBuilder) -> Seq<Seq<char>>;

/// The patterns a compiled set was built from, in insertion order.
pub uninterp spec fn globset_patterns(s: globset::GlobSet) -> Seq<Seq<char>>;

/// Whether a pattern is a valid gitignore-style glob.
pub uninterp spec fn glob_ok(pat: Seq<char>) -> bool;

/// Whether a set of (individually valid) glob patterns compiles into a
/// matcher.
pub uninterp spec fn builds_ok(patterns: Seq<Seq<char>>) -> bool;

/// Whether a set of glob patterns matches a path.
pub uninterp spec fn globs_match(patterns: Seq<Seq<char>>, path: Seq<char>) -> bool;

/// Relies on `globset::GlobSetBuilder::new`: a new builder holds no
/// patterns.
#[verifier::external_body]
pub(crate) fn globset_builder_new() -> (b: globset::GlobSetBuilder)
    ensures
        builder_patterns(b) == Seq::<Seq<char>>::empty(),
{
    globset::GlobSetBuilder::new()
}

/// Relies on `globset::Glob::new` and `globset::GlobSetBuilder::add`: a
/// valid pattern compiles and is appended to the builder's patterns; an
/// invalid one leaves the builder unchanged.
#[verifier::external_body]
pub(crate) fn globset_builder_add(b: &mut globset::GlobSetBuilder, pat: &str) -> (ok: bool)
    ensures
        ok == glob_ok(pat@),
        ok ==> builder_patterns(*final(b)) == builder_patterns(*old(b)).push(pat@),
        !ok ==> builder_patterns(*final(b)) == builder_patterns(*old(b)),
{
    match globset::Glob::new(pat) {
        Ok(g) => {
            b.add(g);
            true
        },
        Err(_) => false,
    }
}

/// Relies on `globset::GlobSetBuilder::build`: whether compilation
/// succeeds depends on the patterns alone, and a built set matches per
/// the patterns added so far.
#[verifier::external_body]
pub(crate) fn globset_builder_build(b: &globset::GlobSetBuilder) -> (r: Option<globset::GlobSet>)
    ensures
        r is Some <==> builds_ok(builder_patterns(*b)),
        r matches Some(s) ==> globset_patterns(s) == builder_patterns(*b),
{
    b.build().ok()
}

/// Relies on `globset::GlobSet::is_match`, with two facts its
/// documentation states: an empty set matches nothing, and the single
/// glob `**` matches everything.
#[verifier::external_body]
pub(crate) fn globset_is_match(s: &globset::GlobSet, path: &str) -> (r: bool)
    ensures
        r == globs_match(globset_patterns(*s), path@),
        globset_patterns(*s).len() == 0 ==> !r,
        globset_patterns(*s) =~= seq!["**"@] ==> r,
{
    s.is_match(path)
}

/// A user glob token starting with `!` names an exclude pattern.
pub open spec fn spec_is_exclude(t: Seq<char>) -> bool {
    t.len() > 0 && t[0] == '!'
}

pub open spec fn spec_excludes_upto(ts: Seq<Seq<char>>, n: int) -> Seq<Seq<char>>
    decreases n,
{
    if n <= 0 {
        Seq::empty()
    } else {
        spec_excludes_upto(ts, n - 1) + if spec_is_exclude(ts[n - 1]) {
            seq![ts[n - 1].drop_first()]
        } else {
            Seq::empty()
        }
    }
}

/// The exclude patterns among user tokens: those with a leading `!`,
/// with the `!` stripped, in order.
pub open spec fn spec_excludes(ts: Seq<Seq<char>>) -> Seq<Seq<char>> {
    spec_excludes_upto(ts, ts.len() as int)
}

pub open spec fn spec_plain_includes_upto(ts: Seq<Seq<char>>, n: int) -> Seq<Seq<char>>
    decreases n,
{
    if n <= 0 {
        Seq::empty()
    } else {
        spec_plain_includes_upto(ts, n - 1) + if spec_is_exclude(ts[n - 1]) {
            Seq::empty()
        } else {
            seq![ts[n - 1]]
        }
    }
}

/// The include patterns among user tokens, in order; with none given,
/// everything is included: the single glob `**`.
pub open spec fn spec_includes(ts: Seq<Seq<char>>) -> Seq<Seq<char>> {
    let plain = spec_plain_includes_upto(ts, ts.len() as int);
    if plain.len() == 0 {
        seq!["**"@]
    } else {
        plain
    }
}

/// Splits user glob tokens into exclude patterns (leading `!`, stripped)
/// and include patterns, defaulting the includes to `**` when none is
/// given.
pub fn split_globs(tokens: &Vec<String>) -> (r: (Vec<String>, Vec<String>))
    ensures
        views_of(r.0@) == spec_excludes(views_of(tokens@)),
        views_of(r.1@) == spec_includes(views_of(tokens@)),
{
    let mut excludes: Vec<String> = Vec::new();
    let mut includes: Vec<String> = Vec::new();
    let mut i: usize = 0;
    while i < tokens.len()
        invariant
            i <= tokens.len(),
            views_of(excludes@) =~= spec_excludes_upto(views_of(tokens@), i as int),
            views_of(includes@) =~= spec_plain_includes_upto(views_of(tokens@), i as int),
        decreases tokens.len() - i,
    {
        let t = &tokens[i];
        let n = t.as_str().unicode_len();
        let ghost ex_before = excludes@;
        let ghost in_before = includes@;
        if n > 0 && t.as_str().get_char(0) == '!' {
            let rest = t.as_str().substring_char(1, n);
            excludes.push(String::from_str(rest));
            proof {
                assert(rest@ =~= tokens@[i as int]@.drop_first());
                assert(views_of(excludes@) =~= views_of(ex_before).push(
                    tokens@[i as int]@.drop_first(),
                ));
            }
        } else {
            includes.push(t.clone());
            proof {
                assert(views_of(includes@) =~= views_of(in_before).push(tokens@[i as int]@));
            }
        }
        proof {
            assert(views_of(tokens@)[i as int] == tokens@[i as int]@);
            assert(views_of(excludes@) =~= spec_excludes_upto(views_of(tokens@), i + 1));
            assert(views_of(includes@) =~= spec_plain_includes_upto(views_of(tokens@), i + 1));
        }
        i = i + 1;
    }
    if includes.len() == 0 {
        includes.push(String::from_str("**"));
        proof {
            assert(views_of(includes@) =~= seq!["**"@]);
        }
    }
    (excludes, includes)
}

/// Compiles a list of glob patterns into a matcher: it succeeds exactly
/// when every pattern is a valid glob and the set compiles.
pub fn build_glob_set(patterns: &Vec<String>) -> (r: Result<globset::GlobSet, Error>)
    ensures
        r matches Ok(s) ==> globset_patterns(s) == views_of(patterns@),
        r is Ok <==> ((forall|i: int|
            0 <= i < patterns@.len() ==> glob_ok(#[trigger] views_of(patterns@)[i]))
            && builds_ok(views_of(patterns@))),
        r matches Err(e) ==> e is InvalidGlob,
{
    let mut b = globset_builder_new();
    let mut i: usize = 0;
    while i < patterns.len()
        invariant
            i <= patterns.len(),
            builder_patterns(b) =~= views_of(patterns@).subrange(0, i as int),
            forall|m: int| 0 <= m < i ==> glob_ok(#[trigger] views_of(patterns@)[m]),
        decreases patterns.len() - i,
    {
        let ok = globset_builder_add(&mut b, patterns[i].as_str());
        if !ok {
            proof {
                assert(views_of(patterns@)[i as int] == patterns@[i as int]@);
            }
            return Err(Error::InvalidGlob { pattern: patterns[i].clone() });
        }
        proof {
            assert(builder_patterns(b) =~= views_of(patterns@).subrange(0, i + 1));
        }
        i = i + 1;
    }
    proof {
        assert(views_of(patterns@).subrange(0, patterns@.len() as int) =~= views_of(patterns@));
    }
    match globset_builder_build(&b) {
        Some(s) => Ok(s),
        None => Err(Error::InvalidGlob { pattern: String::new() }),
    }
}

} // verus!
