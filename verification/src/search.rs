//! Searching the file index by name: a query string is shell-lexed into
//! terms, each term becomes a case-insensitive substring glob, terms are
//! related by AND, and a leading `!` negates a term. Walking the filesystem
//! and keeping the index fresh are the surrounding runtime's work; the
//! matching itself happens here, over the globset crate.

use vstd::prelude::*;
use vstd::string::{StrSliceExecFns, StringExecFns};

use crate::error::Error;
use crate::textfmt::push_char;

verus! {

/// The words shlex splits a query into; the input alone determines them.
pub uninterp spec fn shell_words(s: Seq<char>) -> Seq<Seq<char>>;

/// Relies on shlex::Shlex: splits the query into shell words; the result
/// depends on the input alone. A malformed quotation simply ends the word
/// stream, as the iterator does.
#[verifier::external_body]
fn shlex_words(s: &str) -> (r: Vec<String>)
    ensures
        r.deep_view() == shell_words(s@),
{
    shlex::Shlex::new(s).collect()
}

#[verifier::external_type_specification]
#[verifier::external_body]
pub struct ExGlob(globset::Glob);

#[verifier::external_type_specification]
#[verifier::external_body]
pub struct ExGlobSet(globset::GlobSet);

#[verifier::external_type_specification]
#[verifier::external_body]
pub struct ExGlobSetBuilder(globset::GlobSetBuilder);

/// The pattern a compiled glob was built from.
pub uninterp spec fn glob_pattern(g: globset::Glob) -> Seq<char>;

/// The patterns a builder has gathered, in the order they were added.
pub uninterp spec fn builder_patterns(b: globset::GlobSetBuilder) -> Seq<Seq<char>>;

/// The patterns of a built glob set, in the order they were added.
pub uninterp spec fn globset_patterns(s: globset::GlobSet) -> Seq<Seq<char>>;

/// Whether a pattern, compiled with this module's fixed options
/// (case-insensitive, no backslash escaping, no literal separator), matches
/// a path; pattern and path alone determine it.
pub uninterp spec fn glob_matches(pattern: Seq<char>, path: Seq<char>) -> bool;

/// Whether globset parses this pattern under the module's fixed options;
/// the pattern alone determines it.
pub uninterp spec fn glob_ok(pattern: Seq<char>) -> bool;

/// Whether globset compiles this pattern list into a matcher set; the
/// patterns alone determine it.
pub uninterp spec fn globset_ok(patterns: Seq<Seq<char>>) -> bool;

/// Relies on globset::GlobBuilder: compiles one glob with case
/// insensitivity on and backslash escaping and literal separators off; it
/// succeeds exactly when the pattern parses, and on success the glob holds
/// exactly the given pattern. A pattern globset cannot parse is reported as
/// text.
#[verifier::external_body]
fn build_glob(pat: &str) -> (r: Result<globset::Glob, String>)
    ensures
        r is Ok <==> glob_ok(pat@),
        r matches Ok(g) ==> glob_pattern(g) == pat@,
{
    globset::GlobBuilder::new(pat)
        .case_insensitive(true)
        .backslash_escape(false)
        .literal_separator(false)
        .build()
        .map_err(|e| e.to_string())
}

/// Relies on globset::GlobSetBuilder::new: a builder that has gathered
/// nothing yet.
#[verifier::external_body]
fn globset_builder_new() -> (b: globset::GlobSetBuilder)
    ensures
        builder_patterns(b) == Seq::<Seq<char>>::empty(),
{
    globset::GlobSetBuilder::new()
}

/// Relies on globset::GlobSetBuilder::add: appends one glob to the set
/// being built.
#[verifier::external_body]
fn globset_builder_add(b: &mut globset::GlobSetBuilder, g: globset::Glob)
    ensures
        builder_patterns(*final(b)) == builder_patterns(*old(b)).push(glob_pattern(g)),
{
    b.add(g);
}

/// Relies on globset::GlobSetBuilder::build: compiles the gathered globs
/// into a set holding exactly their patterns; whether it succeeds depends
/// on the gathered patterns alone, and a failure is reported as text.
#[verifier::external_body]
fn globset_build(b: &globset::GlobSetBuilder) -> (r: Result<globset::GlobSet, String>)
    ensures
        r is Ok <==> globset_ok(builder_patterns(*b)),
        r matches Ok(s) ==> globset_patterns(s) == builder_patterns(*b),
{
    b.build().map_err(|e| e.to_string())
}

/// Relies on globset::GlobSet::matches: the indices of exactly the globs
/// that match the path, each below the set's length.
#[verifier::external_body]
fn globset_matches(s: &globset::GlobSet, path: &str) -> (r: Vec<usize>)
    ensures
        forall|j: int|
            0 <= j < r@.len() ==> (#[trigger] r@[j]) < globset_patterns(*s).len() && glob_matches(
                globset_patterns(*s)[r@[j] as int],
                path@,
            ),
        forall|pi: int|
            0 <= pi < globset_patterns(*s).len() && glob_matches(
                #[trigger] globset_patterns(*s)[pi],
                path@,
            ) ==> r@.contains(pi as usize),
{
    s.matches(path)
}

/// Whether a query term is negated: it starts with `!`.
pub open spec fn is_negated(w: Seq<char>) -> bool {
    w.len() > 0 && w[0] == '!'
}

/// A term without its negation mark.
pub open spec fn term_core(w: Seq<char>) -> Seq<char> {
    if is_negated(w) {
        w.skip(1)
    } else {
        w
    }
}

/// A term as a substring pattern: wrapped in `*`.
pub open spec fn wrapped(w: Seq<char>) -> Seq<char> {
    seq!['*'] + w + seq!['*']
}

/// The predicate keeping the non-negated terms.
pub open spec fn keep_positive() -> spec_fn(Seq<char>) -> bool {
    |w: Seq<char>| !is_negated(w)
}

/// The predicate keeping the negated terms.
pub open spec fn keep_negated() -> spec_fn(Seq<char>) -> bool {
    |w: Seq<char>| is_negated(w)
}

/// The map wrapping a term into a substring pattern.
pub open spec fn wrap_fn() -> spec_fn(Seq<char>) -> Seq<char> {
    |w: Seq<char>| wrapped(w)
}

/// The map unmarking and wrapping a negated term.
pub open spec fn wrap_core_fn() -> spec_fn(Seq<char>) -> Seq<char> {
    |w: Seq<char>| wrapped(term_core(w))
}

/// The positive patterns of a query: its non-negated terms, wrapped.
pub open spec fn yes_patterns(words: Seq<Seq<char>>) -> Seq<Seq<char>> {
    words.filter(keep_positive()).map_values(wrap_fn())
}

/// The negative patterns of a query: its negated terms, unmarked and
/// wrapped.
pub open spec fn no_patterns(words: Seq<Seq<char>>) -> Seq<Seq<char>> {
    words.filter(keep_negated()).map_values(wrap_core_fn())
}

/// Whether a whole query compiles: every term's substring glob parses, and
/// both resulting sets build.
pub open spec fn query_ok(words: Seq<Seq<char>>) -> bool {
    &&& forall|n: int| 0 <= n < words.len() ==> glob_ok(wrapped(term_core(#[trigger] words[n])))
    &&& globset_ok(yes_patterns(words))
    &&& globset_ok(no_patterns(words))
}

/// Wraps a term in `*`.
fn wrap_term(w: &str) -> (r: String)
    ensures
        r@ == wrapped(w@),
{
    let mut s = String::new();
    push_char(&mut s, '*');
    s.append(w);
    push_char(&mut s, '*');
    proof {
        assert(s@ =~= wrapped(w@));
    }
    s
}

/// Compiles a query into its positive and negative glob sets: each shell
/// word becomes a case-insensitive substring glob, negated words (leading
/// `!`) going to the negative set, the rest to the positive one. It
/// succeeds exactly when the whole query compiles.
pub fn dual_globsets(globs: &str) -> (r: Result<(globset::GlobSet, globset::GlobSet), Error>)
    ensures
        r is Ok <==> query_ok(shell_words(globs@)),
        r matches Ok((yes, no)) ==> globset_patterns(yes) == yes_patterns(shell_words(globs@))
            && globset_patterns(no) == no_patterns(shell_words(globs@)),
{
    let words = shlex_words(globs);
    let ghost ws = words.deep_view();
    let mut yes_builder = globset_builder_new();
    let mut no_builder = globset_builder_new();
    let mut i: usize = 0;
    proof {
        assert(ws.take(0) =~= Seq::<Seq<char>>::empty());
        crate::integrity::lemma_filter_empty(keep_positive());
        crate::integrity::lemma_filter_empty(keep_negated());
        assert(builder_patterns(yes_builder) =~= yes_patterns(ws.take(0)));
        assert(builder_patterns(no_builder) =~= no_patterns(ws.take(0)));
    }
    while i < words.len()
        invariant
            0 <= i <= words@.len(),
            ws == words.deep_view(),
            ws == shell_words(globs@),
            ws.len() == words@.len(),
            builder_patterns(yes_builder) == yes_patterns(ws.take(i as int)),
            builder_patterns(no_builder) == no_patterns(ws.take(i as int)),
            forall|n: int| 0 <= n < i ==> glob_ok(wrapped(term_core(#[trigger] ws[n]))),
        decreases words@.len() - i,
    {
        proof {
            assert(ws[i as int] == words@[i as int]@);
        }
        let w = &words[i];
        let n = w.as_str().unicode_len();
        let negated = n > 0 && w.as_str().get_char(0) == '!';
        let core: &str = if negated {
            w.as_str().substring_char(1, n)
        } else {
            w.as_str()
        };
        proof {
            if negated {
                assert(core@ =~= term_core(ws[i as int]));
            } else {
                assert(core@ == term_core(ws[i as int]));
            }
        }
        let pat = wrap_term(core);
        let glob = match build_glob(pat.as_str()) {
            Ok(g) => g,
            Err(m) => {
                proof {
                    assert(!glob_ok(wrapped(term_core(ws[i as int]))));
                    assert(!query_ok(ws)) by {
                        if query_ok(ws) {
                            assert(glob_ok(wrapped(term_core(ws[i as int]))));
                        }
                    }
                }
                return Err(Error::Glob(m));
            },
        };
        proof {
            assert(ws.take(i as int + 1) =~= ws.take(i as int).push(ws[i as int]));
            crate::interaction::lemma_filter_push(ws.take(i as int), ws[i as int], keep_positive());
            crate::interaction::lemma_filter_push(ws.take(i as int), ws[i as int], keep_negated());
        }
        if negated {
            globset_builder_add(&mut no_builder, glob);
            proof {
                assert(builder_patterns(no_builder) =~= no_patterns(ws.take(i as int + 1)));
                assert(builder_patterns(yes_builder) =~= yes_patterns(ws.take(i as int + 1)));
            }
        } else {
            globset_builder_add(&mut yes_builder, glob);
            proof {
                assert(builder_patterns(yes_builder) =~= yes_patterns(ws.take(i as int + 1)));
                assert(builder_patterns(no_builder) =~= no_patterns(ws.take(i as int + 1)));
            }
        }
        i = i + 1;
    }
    proof {
        assert(ws.take(ws.len() as int) =~= ws);
    }
    let yes_set = match globset_build(&yes_builder) {
        Ok(s) => s,
        Err(m) => {
            proof {
                assert(!globset_ok(yes_patterns(ws)));
            }
            return Err(Error::Glob(m));
        },
    };
    let no_set = match globset_build(&no_builder) {
        Ok(s) => s,
        Err(m) => {
            proof {
                assert(!globset_ok(no_patterns(ws)));
            }
            return Err(Error::Glob(m));
        },
    };
    proof {
        assert(query_ok(ws));
    }
    Ok((yes_set, no_set))
}

/// Whether every pattern of a query's positive set matches the path.
pub open spec fn matches_all(pats: Seq<Seq<char>>, p: Seq<char>) -> bool {
    forall|i: int| 0 <= i < pats.len() ==> glob_matches(#[trigger] pats[i], p)
}

/// Whether no pattern of a query's negative set matches the path.
pub open spec fn matches_none(pats: Seq<Seq<char>>, p: Seq<char>) -> bool {
    forall|i: int| 0 <= i < pats.len() ==> !glob_matches(#[trigger] pats[i], p)
}

/// Whether a path satisfies the whole query.
pub open spec fn query_matches(words: Seq<Seq<char>>, p: Seq<char>) -> bool {
    matches_all(yes_patterns(words), p) && matches_none(no_patterns(words), p)
}

/// The predicate keeping the paths a query selects.
pub open spec fn keep_query_matches(words: Seq<Seq<char>>) -> spec_fn(Seq<char>) -> bool {
    |p: Seq<char>| query_matches(words, p)
}

/// Whether `v` holds the value `x`.
fn contains_usize(v: &Vec<usize>, x: usize) -> (r: bool)
    ensures
        r == v@.contains(x),
{
    let mut i: usize = 0;
    while i < v.len()
        invariant
            0 <= i <= v@.len(),
            forall|j: int| 0 <= j < i ==> v@[j] != x,
        decreases v@.len() - i,
    {
        if v[i] == x {
            return true;
        }
        i = i + 1;
    }
    false
}

/// Whether all globs of the set match the path.
fn set_matches_all(s: &globset::GlobSet, path: &str) -> (r: bool)
    ensures
        r == matches_all(globset_patterns(*s), path@),
{
    let hits = globset_matches(s, path);
    let ghost pats = globset_patterns(*s);
    let setlen = globset_len(s);
    let mut all = true;
    let mut q: usize = 0;
    while q < setlen
        invariant
            0 <= q <= setlen,
            setlen == pats.len(),
            pats == globset_patterns(*s),
            all == (forall|j: int| 0 <= j < q ==> glob_matches(#[trigger] pats[j], path@)),
            forall|j: int|
                0 <= j < hits@.len() ==> (#[trigger] hits@[j]) < pats.len() && glob_matches(
                    pats[hits@[j] as int],
                    path@,
                ),
            forall|pi2: int|
                0 <= pi2 < pats.len() && glob_matches(#[trigger] pats[pi2], path@)
                    ==> hits@.contains(pi2 as usize),
        decreases setlen - q,
    {
        let hit = contains_usize(&hits, q);
        proof {
            if hit {
                let j = choose|j: int| 0 <= j < hits@.len() && hits@[j] == q;
                assert(glob_matches(pats[q as int], path@));
            } else {
                if glob_matches(pats[q as int], path@) {
                    assert(hits@.contains(q as usize));
                }
            }
        }
        if !hit {
            all = false;
        }
        q = q + 1;
    }
    all
}

/// Relies on globset::GlobSet::len: the number of globs in the set.
#[verifier::external_body]
fn globset_len(s: &globset::GlobSet) -> (r: usize)
    ensures
        r == globset_patterns(*s).len(),
{
    s.len()
}

/// Whether no glob of the set matches the path.
fn set_matches_none(s: &globset::GlobSet, path: &str) -> (r: bool)
    ensures
        r == matches_none(globset_patterns(*s), path@),
{
    let hits = globset_matches(s, path);
    let ghost pats = globset_patterns(*s);
    if hits.len() == 0 {
        proof {
            assert forall|i: int|
                0 <= i < pats.len() implies !glob_matches(#[trigger] pats[i], path@) by {
                if glob_matches(pats[i], path@) {
                    assert(hits@.contains(i as usize));
                }
            }
        }
        true
    } else {
        proof {
            assert(glob_matches(pats[hits@[0] as int], path@));
        }
        false
    }
}

/// Finds the paths a query selects: it succeeds exactly when the query
/// compiles, and then a path is kept exactly when every positive term
/// matches it and no negated term does.
pub fn find_by_globs(paths: &Vec<String>, globs: &str) -> (r: Result<Vec<String>, Error>)
    ensures
        r is Ok <==> query_ok(shell_words(globs@)),
        r matches Ok(out) ==> out.deep_view() == paths.deep_view().filter(
            keep_query_matches(shell_words(globs@)),
        ),
{
    let sets = match dual_globsets(globs) {
        Ok(sets) => sets,
        Err(e) => {
            return Err(e);
        },
    };
    let (yes_set, no_set) = sets;
    let ghost words = shell_words(globs@);
    let mut out: Vec<String> = Vec::new();
    let mut i: usize = 0;
    proof {
        assert(paths.deep_view().take(0) =~= Seq::<Seq<char>>::empty());
        crate::integrity::lemma_filter_empty(keep_query_matches(words));
        assert(out.deep_view() =~= paths.deep_view().take(0).filter(keep_query_matches(words)));
    }
    while i < paths.len()
        invariant
            0 <= i <= paths@.len(),
            paths.deep_view().len() == paths@.len(),
            words == shell_words(globs@),
            globset_patterns(yes_set) == yes_patterns(words),
            globset_patterns(no_set) == no_patterns(words),
            out.deep_view() == paths.deep_view().take(i as int).filter(
                keep_query_matches(words),
            ),
        decreases paths@.len() - i,
    {
        let ghost out_before = out.deep_view();
        proof {
            assert(paths.deep_view()[i as int] == paths@[i as int]@);
            assert(paths.deep_view().take(i as int + 1) =~= paths.deep_view().take(
                i as int,
            ).push(paths.deep_view()[i as int]));
            crate::interaction::lemma_filter_push(
                paths.deep_view().take(i as int),
                paths.deep_view()[i as int],
                keep_query_matches(words),
            );
        }
        let p = &paths[i];
        if set_matches_all(&yes_set, p.as_str()) && set_matches_none(&no_set, p.as_str()) {
            out.push(p.clone());
            proof {
                assert(out.deep_view() =~= out_before.push(paths.deep_view()[i as int]));
            }
        }
        i = i + 1;
    }
    proof {
        assert(paths.deep_view().take(paths.deep_view().len() as int) =~= paths.deep_view());
    }
    Ok(out)
}

} // verus!
