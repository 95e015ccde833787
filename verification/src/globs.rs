//! Glob pattern compilation and matching, built on the `globset` crate.
//!
//! A pattern or a path is handled as UTF-8 bytes. What the outside matcher
//! decides is given names (`glob_ok`, `glob_match`): the contracts of the
//! verified functions here are stated over those names and over the pattern
//! lists the compiled sets hold.

use vstd::prelude::*;
use crate::bytes::{bytes_of, starts_with, vec_starts_with};

verus! {

use vstd::string::StringSliceAdditionalSpecFns;

#[verifier::external_type_specification]
#[verifier::external_body]
pub struct ExGlob(globset::Glob);

#[verifier::external_type_specification]
#[verifier::external_body]
pub struct ExGlobSet(globset::GlobSet);

#[verifier::external_type_specification]
#[verifier::external_body]
pub struct ExGlobSetBuilder(globset::GlobSetBuilder);

#[verifier::external_type_specification]
#[verifier::external_body]
pub struct ExGlobError(globset::Error);

/// Whether `globset` accepts `pattern` (as UTF-8 text) as a glob.
pub uninterp spec fn glob_ok(pattern: Seq<u8>) -> bool;

/// Whether the glob `pattern` matches `path`, under `globset`'s default
/// compilation options.
pub uninterp spec fn glob_match(pattern: Seq<u8>, path: Seq<u8>) -> bool;

/// The display text of globset's error for a pattern it rejects.
pub uninterp spec fn glob_error_text(pattern: Seq<u8>) -> Seq<u8>;

/// Whether a list of compiled patterns builds into a matchable set. Building
/// compiles the patterns' regexes under a size limit, so it is a function of
/// the pattern list alone; an oversized pattern makes it fail.
pub uninterp spec fn globset_builds(pats: Seq<Seq<u8>>) -> bool;

/// The pattern text a compiled `Glob` holds.
pub uninterp spec fn glob_pattern(g: globset::Glob) -> Seq<u8>;

/// The pattern texts a `GlobSetBuilder` has accumulated.
pub uninterp spec fn builder_patterns(b: globset::GlobSetBuilder) -> Seq<Seq<u8>>;

/// The pattern texts a built `GlobSet` matches against.
pub uninterp spec fn glob_set_patterns(s: globset::GlobSet) -> Seq<Seq<u8>>;

/// True when some pattern of `pats` matches `path`.
pub open spec fn any_glob_matches(pats: Seq<Seq<u8>>, path: Seq<u8>) -> bool {
    exists|i: int| 0 <= i < pats.len() && glob_match(pats[i], path)
}

/// Relies on globset::Glob::new: whether the pattern text compiles, which
/// pattern the compiled glob holds, and the rejection text are all functions
/// of the pattern text alone.
#[verifier::external_body]
pub fn glob_new(pattern: &Vec<u8>) -> (r: Result<globset::Glob, Vec<u8>>)
    ensures
        r is Ok <==> glob_ok(pattern@),
        r matches Ok(g) ==> glob_pattern(g) == pattern@,
        r matches Err(t) ==> t@ == glob_error_text(pattern@),
{
    globset::Glob::new(String::from_utf8_lossy(pattern).as_ref()).map_err(
        |e| e.to_string().into_bytes(),
    )
}

/// Relies on globset::GlobSetBuilder::new: the new builder holds no patterns.
#[verifier::external_body]
pub fn glob_set_builder_new() -> (r: globset::GlobSetBuilder)
    ensures
        builder_patterns(r) == Seq::<Seq<u8>>::empty(),
{
    globset::GlobSetBuilder::new()
}

/// Relies on globset::GlobSetBuilder::add: the glob's pattern is appended to
/// the builder's pattern list.
#[verifier::external_body]
pub fn glob_set_builder_add(b: &mut globset::GlobSetBuilder, g: globset::Glob)
    ensures
        builder_patterns(*final(b)) == builder_patterns(*old(b)).push(glob_pattern(g)),
{
    b.add(g);
}

/// Relies on globset::GlobSetBuilder::build: whether the set builds is a
/// function of the pattern list alone (the patterns' regexes are compiled
/// deterministically, under a size limit), and on success the set matches
/// exactly the patterns added so far. Matching a built set compiles nothing
/// further and cannot fail.
#[verifier::external_body]
pub fn glob_set_build(b: &globset::GlobSetBuilder) -> (r: Result<globset::GlobSet, globset::Error>)
    ensures
        r is Ok <==> globset_builds(builder_patterns(*b)),
        r matches Ok(s) ==> glob_set_patterns(s) == builder_patterns(*b),
{
    b.build()
}

/// Relies on globset::GlobSet::is_match: true exactly when some glob of the
/// set matches the path text.
#[verifier::external_body]
pub fn glob_set_is_match(s: &globset::GlobSet, path: &Vec<u8>) -> (r: bool)
    ensures
        r == (exists|i: int|
            0 <= i < glob_set_patterns(*s).len() && glob_match(glob_set_patterns(*s)[i], path@)),
{
    s.is_match(String::from_utf8_lossy(path).as_ref())
}

/// `pattern` with `**/` in front.
pub open spec fn nested_form(pattern: Seq<u8>) -> Seq<u8> {
    "**/".spec_bytes() + pattern
}

/// The patterns one raw exclude pattern contributes to a compiled exclude set:
/// the pattern itself when it compiles, then its `**/`-prefixed form (so it
/// also matches at any depth) when the raw pattern does not already start with
/// `**/` and the prefixed form compiles.
pub open spec fn augmented_one(pattern: Seq<u8>) -> Seq<Seq<u8>> {
    (if glob_ok(pattern) {
        seq![pattern]
    } else {
        Seq::<Seq<u8>>::empty()
    }) + (if !starts_with(pattern, "**/".spec_bytes()) && glob_ok(nested_form(pattern)) {
        seq![nested_form(pattern)]
    } else {
        Seq::<Seq<u8>>::empty()
    })
}

/// The patterns of the compiled exclude set for the raw list `pats`.
pub open spec fn augmented_excludes(pats: Seq<Seq<u8>>) -> Seq<Seq<u8>>
    decreases pats.len(),
{
    if pats.len() == 0 {
        Seq::<Seq<u8>>::empty()
    } else {
        augmented_excludes(pats.drop_last()) + augmented_one(pats.last())
    }
}

/// The patterns of `pats` that compile, in order, without augmentation.
pub open spec fn compiled_globs(pats: Seq<Seq<u8>>) -> Seq<Seq<u8>>
    decreases pats.len(),
{
    if pats.len() == 0 {
        Seq::<Seq<u8>>::empty()
    } else {
        compiled_globs(pats.drop_last()) + (if glob_ok(pats.last()) {
            seq![pats.last()]
        } else {
            Seq::<Seq<u8>>::empty()
        })
    }
}

/// Compile an exclude-pattern list into a matchable set. Every raw pattern is
/// registered both as given and with a `**/` prefix, so it also matches at any
/// depth; patterns that do not compile are skipped. `None` exactly when the
/// final set cannot be built.
pub fn build_exclude_set(patterns: &Vec<Vec<u8>>) -> (r: Option<globset::GlobSet>)
    ensures
        r is Some <==> globset_builds(augmented_excludes(patterns@.map_values(|p: Vec<u8>| p@))),
        r matches Some(s) ==> glob_set_patterns(s) == augmented_excludes(patterns@.map_values(|p: Vec<u8>| p@)),
{
    let ghost pats_view = patterns@.map_values(|p: Vec<u8>| p@);
    let mut builder = glob_set_builder_new();
    let nested_prefix = bytes_of("**/");
    let mut i: usize = 0;
    while i < patterns.len()
        invariant
            i <= patterns.len(),
            pats_view == patterns@.map_values(|p: Vec<u8>| p@),
            nested_prefix@ == "**/".spec_bytes(),
            builder_patterns(builder) == augmented_excludes(pats_view.subrange(0, i as int)),
        decreases patterns.len() - i,
    {
        let pattern = &patterns[i];
        match glob_new(pattern) {
            Ok(g) => {
                glob_set_builder_add(&mut builder, g);
            }
            Err(_) => {}
        }
        if !vec_starts_with(pattern, &nested_prefix) {
            let mut nested: Vec<u8> = nested_prefix.clone();
            crate::bytes::vec_extend(&mut nested, pattern);
            assert(nested@ == nested_form(pattern@));
            match glob_new(&nested) {
                Ok(g) => {
                    glob_set_builder_add(&mut builder, g);
                }
                Err(_) => {}
            }
        }
        proof {
            assert(pats_view.subrange(0, i + 1 as int).drop_last() =~= pats_view.subrange(0, i as int));
            assert(pats_view.subrange(0, i + 1 as int).last() == pats_view[i as int]);
            assert(builder_patterns(builder) =~= augmented_excludes(pats_view.subrange(0, i + 1 as int)));
        }
        i += 1;
    }
    proof {
        assert(pats_view.subrange(0, patterns@.len() as int) =~= pats_view);
    }
    match glob_set_build(&builder) {
        Ok(s) => Some(s),
        Err(_) => None,
    }
}

/// Compile a plain pattern list into a matchable set, skipping patterns that
/// do not compile. `None` exactly when the final set cannot be built.
pub fn build_include_free_set(patterns: &Vec<Vec<u8>>) -> (r: Option<globset::GlobSet>)
    ensures
        r is Some <==> globset_builds(compiled_globs(patterns@.map_values(|p: Vec<u8>| p@))),
        r matches Some(s) ==> glob_set_patterns(s) == compiled_globs(patterns@.map_values(|p: Vec<u8>| p@)),
{
    let ghost pats_view = patterns@.map_values(|p: Vec<u8>| p@);
    let mut builder = glob_set_builder_new();
    let mut i: usize = 0;
    while i < patterns.len()
        invariant
            i <= patterns.len(),
            pats_view == patterns@.map_values(|p: Vec<u8>| p@),
            builder_patterns(builder) == compiled_globs(pats_view.subrange(0, i as int)),
        decreases patterns.len() - i,
    {
        match glob_new(&patterns[i]) {
            Ok(g) => {
                glob_set_builder_add(&mut builder, g);
            }
            Err(_) => {}
        }
        proof {
            assert(pats_view.subrange(0, i + 1 as int).drop_last() =~= pats_view.subrange(0, i as int));
            assert(pats_view.subrange(0, i + 1 as int).last() == pats_view[i as int]);
            assert(builder_patterns(builder) =~= compiled_globs(pats_view.subrange(0, i + 1 as int)));
        }
        i += 1;
    }
    proof {
        assert(pats_view.subrange(0, patterns@.len() as int) =~= pats_view);
    }
    match glob_set_build(&builder) {
        Ok(s) => Some(s),
        Err(_) => None,
    }
}

} // verus!
