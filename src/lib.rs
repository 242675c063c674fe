//! Conventional-commit suggestions for monorepos: which packages a commit
//! touches, and the message header that names them.

use vstd::prelude::*;

pub mod commit;
pub mod glob;
pub mod json;
pub mod lerna;
pub mod manifest;
pub mod prepare_commit_msg;
pub mod scopes;
pub mod text;

pub use crate::commit::{format_commit, CommitMessageError};
pub use crate::lerna::{LernaMonorepo, LernaMonorepoConfig};
pub use crate::manifest::ManifestFiles;
pub use crate::prepare_commit_msg::PrepareCommitMessage;

use crate::commit::opt_str_view;
use crate::glob::patterns_compile;
use crate::lerna::{declared_packages, scope_set};
use crate::scopes::strictly_sorted;
use crate::text::views;

verus! {

/// A source of the scopes of the commit being prepared.
pub trait CommitScopeFinder {
    /// The scopes, each once, in lexicographic order.
    fn get_commit_scopes(&self) -> Vec<String>;
}

/// The package patterns that the text of a monorepo descriptor gives, where
/// there is one that declares patterns which compile.
pub open spec fn descriptor_patterns(lerna_json: Option<Seq<char>>) -> Option<Seq<Seq<char>>> {
    match lerna_json {
        Some(text) => match declared_packages(text) {
            Some(p) => if patterns_compile(p) {
                Some(p)
            } else {
                None
            },
            None => None,
        },
        None => None,
    }
}

/// The scopes of a commit that changes the files at `paths`: none without
/// package patterns, else the non-empty names of the packages they belong to.
pub open spec fn commit_scope_set(
    patterns: Option<Seq<Seq<char>>>,
    manifests: Map<Seq<char>, Seq<char>>,
    paths: Seq<Seq<char>>,
) -> Set<Seq<char>> {
    match patterns {
        Some(p) => scope_set(p, manifests, paths),
        None => Set::empty(),
    }
}

/// How the repository is laid out: a plain repository, or a monorepo whose
/// packages are found as lerna finds them.
pub enum Monorepo {
    NoMonorepo,
    Lerna(LernaMonorepo),
}

impl Monorepo {
    pub open spec fn wf(&self) -> bool {
        match self {
            Monorepo::Lerna(m) => m.wf(),
            Monorepo::NoMonorepo => true,
        }
    }

    /// The package patterns, where this is a monorepo.
    pub open spec fn package_patterns(&self) -> Option<Seq<Seq<char>>> {
        match self {
            Monorepo::Lerna(m) => Some(m.patterns()),
            Monorepo::NoMonorepo => None,
        }
    }

    /// The layout given by the text of the `lerna.json` at the repository
    /// root: a plain repository where there is none, where it does not parse,
    /// or where its package globs do not compile.
    pub fn new(lerna_json: Option<&str>) -> (r: Monorepo)
        ensures
            r.wf(),
            r.package_patterns() == descriptor_patterns(opt_str_view(lerna_json)),
    {
        match lerna_json {
            Some(text) => match LernaMonorepo::new(text) {
                Some(m) => Monorepo::Lerna(m),
                None => Monorepo::NoMonorepo,
            },
            None => Monorepo::NoMonorepo,
        }
    }

    /// The scopes of a commit that changes the files at `staged_changes`,
    /// paths relative to the repository root, given the manifests the
    /// repository holds: each once, in lexicographic order; none in a plain
    /// repository.
    pub fn get_commit_scopes(&self, staged_changes: &Vec<String>, manifests: &ManifestFiles) -> (r:
        Vec<String>)
        requires
            self.wf(),
            manifests.wf(),
        ensures
            strictly_sorted(views(r@)),
            views(r@).to_set() == commit_scope_set(
                self.package_patterns(),
                manifests@,
                views(staged_changes@),
            ),
    {
        match self {
            Monorepo::Lerna(m) => m.get_commit_scopes(staged_changes, manifests),
            Monorepo::NoMonorepo => {
                let r: Vec<String> = Vec::new();
                assert(views(r@).to_set() =~= Set::empty());
                r
            },
        }
    }
}

/// Without a monorepo descriptor at the root a commit has no scopes, whatever
/// files it changes and whatever manifests the repository holds.
pub proof fn lemma_no_descriptor_no_scopes(
    manifests: Map<Seq<char>, Seq<char>>,
    paths: Seq<Seq<char>>,
    listing: Seq<Seq<char>>,
)
    requires
        listing.to_set() == commit_scope_set(descriptor_patterns(None), manifests, paths),
    ensures
        listing.len() == 0,
{
    if listing.len() > 0 {
        assert(listing.to_set().contains(listing[0]));
    }
}

} // verus!
