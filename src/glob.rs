//! Package globs: shell-glob patterns, compiled with globset, in which a
//! wildcard never crosses a `/`.

use vstd::prelude::*;

use crate::text::views;

verus! {

#[verifier::external_type_specification]
#[verifier::external_body]
pub struct ExGlobSetBuilder(globset::GlobSetBuilder);

#[verifier::external_type_specification]
#[verifier::external_body]
pub struct ExGlobSet(globset::GlobSet);

/// Whether globset accepts `pattern` as a glob in which `*` and `?` do not
/// match `/`.
pub uninterp spec fn glob_is_valid(pattern: Seq<char>) -> bool;

/// Whether `path` matches the valid glob `pattern`, wildcards not crossing `/`.
pub uninterp spec fn glob_matches(pattern: Seq<char>, path: Seq<char>) -> bool;

/// Whether globset can compile the given patterns, all valid, into one set.
pub uninterp spec fn globset_builds(patterns: Seq<Seq<char>>) -> bool;

/// The patterns a builder holds, in the order they were added.
pub uninterp spec fn builder_patterns(b: globset::GlobSetBuilder) -> Seq<Seq<char>>;

/// The patterns a compiled set was built from.
pub uninterp spec fn set_patterns(s: globset::GlobSet) -> Seq<Seq<char>>;

/// Whether some pattern of `patterns` matches `path`.
pub open spec fn any_glob_matches(patterns: Seq<Seq<char>>, path: Seq<char>) -> bool {
    exists|i: int| 0 <= i < patterns.len() && glob_matches(#[trigger] patterns[i], path)
}

/// Whether every pattern is a valid glob and globset compiles them together.
pub open spec fn patterns_compile(patterns: Seq<Seq<char>>) -> bool {
    &&& forall|i: int| 0 <= i < patterns.len() ==> glob_is_valid(#[trigger] patterns[i])
    &&& globset_builds(patterns)
}

/// Relies on `GlobSetBuilder::new`: a builder that holds no glob yet.
#[verifier::external_body]
fn new_builder() -> (r: globset::GlobSetBuilder)
    ensures
        builder_patterns(r) == Seq::<Seq<char>>::empty(),
{
    globset::GlobSetBuilder::new()
}

/// Relies on `GlobBuilder::build` with `literal_separator(true)`, which parses
/// the pattern or fails, and on `GlobSetBuilder::add`, which appends the glob.
#[verifier::external_body]
fn add_glob(b: &mut globset::GlobSetBuilder, pattern: &str) -> (r: bool)
    ensures
        r == glob_is_valid(pattern@),
        r ==> builder_patterns(*final(b)) == builder_patterns(*old(b)).push(pattern@),
        !r ==> builder_patterns(*final(b)) == builder_patterns(*old(b)),
{
    match globset::GlobBuilder::new(pattern).literal_separator(true).build() {
        Ok(glob) => {
            b.add(glob);
            true
        },
        Err(_) => false,
    }
}

/// Relies on `GlobSetBuilder::build`: a set of the globs added so far, or an
/// error where the patterns cannot be compiled together.
#[verifier::external_body]
fn build_set(b: &globset::GlobSetBuilder) -> (r: Option<globset::GlobSet>)
    ensures
        r is Some <==> globset_builds(builder_patterns(*b)),
        r matches Some(s) ==> set_patterns(s) == builder_patterns(*b),
{
    b.build().ok()
}

/// Relies on `GlobSet::is_match`: true when any glob of the set matches.
#[verifier::external_body]
fn set_is_match(s: &globset::GlobSet, path: &str) -> (r: bool)
    ensures
        r == (exists|i: int|
            0 <= i < set_patterns(*s).len() && glob_matches(#[trigger] set_patterns(*s)[i], path@)),
{
    s.is_match(path)
}

/// Package globs compiled from a list of patterns.
pub struct PackageGlobs {
    patterns: Vec<String>,
    set: globset::GlobSet,
}

impl PackageGlobs {
    /// The patterns the globs were compiled from.
    pub closed spec fn patterns(&self) -> Seq<Seq<char>> {
        views(self.patterns@)
    }

    pub closed spec fn wf(&self) -> bool {
        set_patterns(self.set) == self.patterns()
    }

    /// Compiles `patterns`; `None` when one of them is malformed, or when
    /// globset cannot compile them together.
    pub fn compile(patterns: &Vec<String>) -> (r: Option<PackageGlobs>)
        ensures
            r is Some <==> patterns_compile(views(patterns@)),
            r matches Some(g) ==> g.wf() && g.patterns() == views(patterns@),
    {
        let ghost vs = views(patterns@);
        let mut b = new_builder();
        let mut i: usize = 0;
        while i < patterns.len()
            invariant
                i <= patterns.len(),
                vs == views(patterns@),
                builder_patterns(b) == vs.take(i as int),
                forall|j: int| 0 <= j < i ==> glob_is_valid(#[trigger] vs[j]),
            decreases patterns.len() - i,
        {
            assert(vs[i as int] == patterns@[i as int]@);
            if !add_glob(&mut b, patterns[i].as_str()) {
                return None;
            }
            assert(vs.take(i + 1) == vs.take(i as int).push(vs[i as int]));
            i += 1;
        }
        assert(vs.take(i as int) == vs);
        match build_set(&b) {
            Some(set) => {
                let g = PackageGlobs { patterns: patterns.clone(), set };
                Some(g)
            },
            None => None,
        }
    }

    /// Whether `path` matches one of the globs.
    pub fn is_match(&self, path: &str) -> (r: bool)
        requires
            self.wf(),
        ensures
            r == any_glob_matches(self.patterns(), path@),
    {
        set_is_match(&self.set, path)
    }
}

} // verus!
