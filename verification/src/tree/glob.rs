//! The glob matcher of the `globset` crate, as far as the tree builder uses it.
//!
//! Nothing in this file is proved: each contract says what the crate's
//! source shows of the function it stands for.

use globset::{Glob, GlobSet, GlobSetBuilder};
use vstd::prelude::*;

verus! {

/// `globset::Glob`: one parsed pattern.
#[verifier::external_type_specification]
#[verifier::external_body]
pub struct ExGlob(Glob);

/// `globset::GlobSetBuilder`: the patterns collected for a set, in the order
/// in which they were added.
#[verifier::external_type_specification]
#[verifier::external_body]
pub struct ExGlobSetBuilder(GlobSetBuilder);

/// `globset::GlobSet`: a group of patterns that is matched in one pass.
#[verifier::external_type_specification]
#[verifier::external_body]
pub struct ExGlobSet(GlobSet);

/// Whether `Glob::new` accepts the pattern. The crate parses a pattern with
/// its default options, in which a backslash escapes the next character
/// wherever the build's platform does not use it to separate path components.
pub uninterp spec fn glob_valid(pattern: Seq<char>) -> bool;

/// The pattern text that a `Glob` was parsed from, which `Glob::glob`
/// returns. The contracts of this file speak of globs parsed with the
/// crate's default options, as `Glob::new` parses them and as this library
/// alone makes them: the text says nothing of the options that another
/// builder of globs may have set.
pub uninterp spec fn glob_text(glob: Glob) -> Seq<char>;

/// The pattern texts held by a builder, oldest first.
pub uninterp spec fn builder_globs(builder: GlobSetBuilder) -> Seq<Seq<char>>;

/// The pattern texts that a set was built from, oldest first. The set
/// itself keeps its matching tables only; the name stands for the patterns
/// that were handed to the build.
pub uninterp spec fn set_globs(set: GlobSet) -> Seq<Seq<char>>;

/// Whether `GlobSetBuilder::build` can compile these patterns into one
/// set. The crate's matcher has a size limit, which a list of patterns
/// either keeps or breaks.
pub uninterp spec fn set_compiles(patterns: Seq<Seq<char>>) -> bool;

/// Whether the pattern, parsed by `Glob::new` with the default options,
/// matches the path. A set of globs that were parsed with other options,
/// case-insensitive ones for one, is not spoken of.
pub uninterp spec fn glob_matches(pattern: Seq<char>, path: Seq<char>) -> bool;

/// Whether any of the patterns matches the path.
pub open spec fn any_glob_matches(patterns: Seq<Seq<char>>, path: Seq<char>) -> bool {
    exists|i: int| 0 <= i < patterns.len() && glob_matches(#[trigger] patterns[i], path)
}

/// `Glob::new`: parses a pattern with the default options. A pattern that
/// the parser rejects gives `None`; an accepted one keeps its text.
#[verifier::external_body]
pub(crate) fn parse_glob(pattern: &str) -> (r: Option<Glob>)
    ensures
        r is Some <==> glob_valid(pattern@),
        r matches Some(g) ==> glob_text(g) == pattern@,
{
    Glob::new(pattern).ok()
}

/// `GlobSetBuilder::new`: a builder that holds no pattern.
#[verifier::external_body]
pub(crate) fn new_builder() -> (r: GlobSetBuilder)
    ensures
        builder_globs(r) == Seq::<Seq<char>>::empty(),
{
    GlobSetBuilder::new()
}

/// `GlobSetBuilder::add`: appends one pattern to the builder.
#[verifier::external_body]
pub(crate) fn add_glob(builder: &mut GlobSetBuilder, glob: Glob)
    ensures
        builder_globs(*final(builder)) == builder_globs(*old(builder)).push(glob_text(glob)),
{
    builder.add(glob);
}

/// `GlobSetBuilder::build`: compiles the patterns added so far into a set.
/// Whether that succeeds depends on the patterns alone (the crate's matcher
/// has a size limit); a failure gives `None`, and a set that was built
/// stands for exactly the builder's patterns.
#[verifier::external_body]
pub(crate) fn build_set(builder: &GlobSetBuilder) -> (r: Option<GlobSet>)
    ensures
        r is Some <==> set_compiles(builder_globs(*builder)),
        r matches Some(set) ==> set_globs(set) == builder_globs(*builder),
{
    builder.build().ok()
}

/// `GlobSet::empty`: the set without patterns, which matches nothing.
#[verifier::external_body]
pub(crate) fn empty_set() -> (r: GlobSet)
    ensures
        set_globs(r) == Seq::<Seq<char>>::empty(),
{
    GlobSet::empty()
}

/// `GlobSet::is_match`: true if any glob of the set matches the path. The
/// clause holds of a set whose globs were parsed with the default options.
#[verifier::external_body]
pub(crate) fn set_is_match(set: &GlobSet, path: &str) -> (r: bool)
    ensures
        r == (exists|i: int|
            0 <= i < set_globs(*set).len() && glob_matches(#[trigger] set_globs(*set)[i], path@)),
{
    set.is_match(path)
}

} // verus!
