//! Sets of glob patterns.
use vstd::prelude::*;

verus! {

/// globset's builder of a set of globs.
#[verifier::external_type_specification]
#[verifier::external_body]
pub struct ExGlobSetBuilder(globset::GlobSetBuilder);

/// globset's set of globs, ready to be matched.
#[verifier::external_type_specification]
#[verifier::external_body]
pub struct ExGlobSet(globset::GlobSet);

/// What globset reports of a pattern that is not a glob.
#[verifier::external_type_specification]
#[verifier::external_body]
pub struct ExGlobError(globset::Error);

/// `pattern` is a glob: globset's `GlobBuilder::build` accepts it, on a platform where only
/// `/` separates paths.
pub uninterp spec fn is_glob(pattern: Seq<char>, literal_separator: bool) -> bool;

/// globset compiles these globs into one set: `GlobSetBuilder::build` accepts them.
pub uninterp spec fn globs_compile(globs: Seq<(Seq<char>, bool)>) -> bool;

/// The glob `pattern` matches the path `name`, on a platform where only `/` separates paths.
pub uninterp spec fn glob_matches(pattern: Seq<char>, literal_separator: bool, name: Seq<char>) -> bool;

/// The globs that a builder holds, in the order in which they were added: each with its pattern
/// and whether only a literal `/` of it matches a `/`.
pub uninterp spec fn builder_globs(builder: globset::GlobSetBuilder) -> Seq<(Seq<char>, bool)>;

/// The globs that a set was built from.
pub uninterp spec fn set_globs(set: globset::GlobSet) -> Seq<(Seq<char>, bool)>;

/// One of the globs matches the path `name`.
pub open spec fn some_match(globs: Seq<(Seq<char>, bool)>, name: Seq<char>) -> bool {
    exists|i: int|
        #![trigger globs[i]]
        0 <= i < globs.len() && glob_matches(globs[i].0, globs[i].1, name)
}

/// Calls `globset::GlobSetBuilder::new`: the builder holds nothing.
#[verifier::external_body]
pub(crate) fn new_builder() -> (r: globset::GlobSetBuilder)
    ensures
        builder_globs(r) == Seq::<(Seq<char>, bool)>::empty(),
{
    globset::GlobSetBuilder::new()
}

/// Builds a glob with `globset::GlobBuilder` and hands it to `globset::GlobSetBuilder::add`: the
/// builder then holds that glob behind the others, and is as it was where the pattern is no glob.
/// Whether it is one is a function of the pattern and of the setting.
#[verifier::external_body]
pub(crate) fn add_glob(
    builder: &mut globset::GlobSetBuilder,
    pattern: &str,
    literal_separator: bool,
) -> (r: Result<(), globset::Error>)
    ensures
        r is Ok == is_glob(pattern@, literal_separator),
        r is Ok ==> builder_globs(*final(builder)) == builder_globs(*old(builder)).push(
            (pattern@, literal_separator),
        ),
        r is Err ==> *final(builder) == *old(builder),
{
    let glob = globset::GlobBuilder::new(pattern).literal_separator(literal_separator).build()?;
    builder.add(glob);
    Ok(())
}

/// Calls `globset::GlobSetBuilder::build`: the set holds the globs of the builder. Whether it
/// can be built is a function of those globs; a set of none always can.
#[verifier::external_body]
pub(crate) fn build_set(builder: &globset::GlobSetBuilder) -> (r: Result<
    globset::GlobSet,
    globset::Error,
>)
    ensures
        r is Ok == globs_compile(builder_globs(*builder)),
        builder_globs(*builder).len() == 0 ==> r is Ok,
        r is Ok ==> set_globs(r->Ok_0) == builder_globs(*builder),
{
    builder.build()
}

/// Calls `globset::GlobSet::is_match`: some glob of the set matches the name. Which name a glob
/// matches is a function of its pattern, of its setting and of the name.
#[verifier::external_body]
pub(crate) fn set_matches(set: &globset::GlobSet, name: &str) -> (r: bool)
    ensures
        r == (exists|i: int|
            #![trigger set_globs(*set)[i]]
            0 <= i < set_globs(*set).len() && glob_matches(
                set_globs(*set)[i].0,
                set_globs(*set)[i].1,
                name@,
            )),
{
    set.is_match(name)
}

} // verus!
