//! Monorepos laid out for lerna: a `lerna.json` at the repository root lists
//! the package directories as globs, and each package directory holds a
//! `package.json` that names the package.

use vstd::prelude::*;

use crate::glob::{any_glob_matches, patterns_compile, PackageGlobs};
use crate::json::{array_member, json_array_member};
use crate::manifest::{
    manifest_name, normalize_package_name, normalized_name, read_manifest, ManifestFiles,
};
use crate::scopes::{
    insert_sorted, lemma_sorted_listing_len, lemma_sorted_listing_unique, strictly_sorted,
};
use crate::text::{chars_of, prefix_string, views};

verus! {

/// The package patterns that a `lerna.json` text declares: its `packages`
/// member, which must be an array of strings.
pub open spec fn declared_packages(text: Seq<char>) -> Option<Seq<Seq<char>>> {
    match json_array_member(text, "packages"@) {
        Some(items) => if forall|i: int| 0 <= i < items.len() ==> #[trigger] items[i] is Some {
            Some(items.map_values(|o: Option<Seq<char>>| o->0))
        } else {
            None
        },
        None => None,
    }
}

/// The directories that hold `path`, nearest first: each non-empty prefix of
/// `path` that ends right before a `/`. The repository root, the empty
/// prefix, is never one of them.
pub open spec fn ancestor_dirs(path: Seq<char>) -> Seq<Seq<char>>
    decreases path.len(),
{
    if path.len() == 0 {
        Seq::empty()
    } else {
        let rest = path.drop_last();
        if path.last() == '/' && rest.len() > 0 {
            seq![rest] + ancestor_dirs(rest)
        } else {
            ancestor_dirs(rest)
        }
    }
}

/// Whether `dir` is a package: it has a manifest that declares a name, and
/// its path matches one of the package patterns.
pub open spec fn is_package_dir(
    patterns: Seq<Seq<char>>,
    manifests: Map<Seq<char>, Seq<char>>,
    dir: Seq<char>,
) -> bool {
    manifest_name(manifests, dir) is Some && any_glob_matches(patterns, dir)
}

/// The package of the first package directory in `dirs`; none where there is
/// none, or where the first one's declared name stands for no package name.
pub open spec fn package_in_dirs(
    patterns: Seq<Seq<char>>,
    manifests: Map<Seq<char>, Seq<char>>,
    dirs: Seq<Seq<char>>,
) -> Option<Seq<char>>
    decreases dirs.len(),
{
    if dirs.len() == 0 {
        None
    } else if is_package_dir(patterns, manifests, dirs[0]) {
        normalized_name(manifest_name(manifests, dirs[0])->0)
    } else {
        package_in_dirs(patterns, manifests, dirs.drop_first())
    }
}

/// The package that the file at `path` belongs to: that of its nearest
/// package directory.
pub open spec fn package_for_file(
    patterns: Seq<Seq<char>>,
    manifests: Map<Seq<char>, Seq<char>>,
    path: Seq<char>,
) -> Option<Seq<char>> {
    package_in_dirs(patterns, manifests, ancestor_dirs(path))
}

/// The non-empty package names that the files at `paths` belong to.
pub open spec fn scope_set(
    patterns: Seq<Seq<char>>,
    manifests: Map<Seq<char>, Seq<char>>,
    paths: Seq<Seq<char>>,
) -> Set<Seq<char>> {
    Set::new(
        |n: Seq<char>|
            n.len() > 0 && exists|i: int|
                0 <= i < paths.len() && #[trigger] package_for_file(patterns, manifests, paths[i])
                    == Some(n),
    )
}

/// The directories that hold the file at `path`, relative to the repository
/// root and nearest first; the root itself is not listed.
pub fn ancestor_directories(path: &str) -> (r: Vec<String>)
    ensures
        views(r@) == ancestor_dirs(path@),
{
    let cs = chars_of(path);
    let mut r: Vec<String> = Vec::new();
    let mut i: usize = cs.len();
    assert(cs@.take(i as int) == cs@);
    while i > 0
        invariant
            i <= cs.len(),
            cs@ == path@,
            ancestor_dirs(path@) == views(r@) + ancestor_dirs(cs@.take(i as int)),
        decreases i,
    {
        let ghost before = views(r@);
        assert(cs@.take(i as int).drop_last() == cs@.take(i - 1));
        if cs[i - 1] == '/' && i - 1 > 0 {
            let dir = prefix_string(&cs, i - 1);
            r.push(dir);
            assert(views(r@) == before.push(cs@.take(i - 1)));
            assert(before + (seq![cs@.take(i - 1)] + ancestor_dirs(cs@.take(i - 1))) == views(r@)
                + ancestor_dirs(cs@.take(i - 1)));
        }
        i -= 1;
    }
    assert(views(r@) + Seq::<Seq<char>>::empty() == views(r@));
    r
}

/// The settings of a `lerna.json`: the globs of the package directories.
pub struct LernaMonorepoConfig {
    packages: Vec<String>,
}

impl View for LernaMonorepoConfig {
    type V = Seq<Seq<char>>;

    /// The package patterns, in the order given.
    closed spec fn view(&self) -> Seq<Seq<char>> {
        views(self.packages@)
    }
}

impl LernaMonorepoConfig {
    /// A configuration with the given package patterns.
    pub fn new(packages: Vec<String>) -> (r: LernaMonorepoConfig)
        ensures
            r@ == views(packages@),
    {
        LernaMonorepoConfig { packages }
    }

    /// The package patterns.
    pub fn packages(&self) -> (r: &Vec<String>)
        ensures
            views(r@) == self@,
    {
        &self.packages
    }
}

/// A lerna monorepo: the compiled globs of its package directories.
pub struct LernaMonorepo {
    packages_globset: PackageGlobs,
}

impl LernaMonorepo {
    pub closed spec fn wf(&self) -> bool {
        self.packages_globset.wf()
    }

    /// The package patterns the globs were compiled from.
    pub closed spec fn patterns(&self) -> Seq<Seq<char>> {
        self.packages_globset.patterns()
    }

    /// Reads the text of a `lerna.json`: `None` unless it is a JSON object
    /// whose `packages` member is an array of strings.
    pub fn parse_lerna_config(contents: &str) -> (r: Option<LernaMonorepoConfig>)
        ensures
            r is None <==> declared_packages(contents@) is None,
            r matches Some(c) ==> declared_packages(contents@) == Some(c@),
    {
        let items = match array_member(contents, "packages") {
            Some(items) => items,
            None => return None,
        };
        let ghost elems = json_array_member(contents@, "packages"@)->0;
        let mut packages: Vec<String> = Vec::new();
        let mut i: usize = 0;
        while i < items.len()
            invariant
                i <= items.len(),
                elems.len() == items.len(),
                json_array_member(contents@, "packages"@) == Some(elems),
                forall|k: int|
                    0 <= k < items.len() ==> #[trigger] elems[k] == match items@[k] {
                        Some(s) => Some(s@),
                        None => None::<Seq<char>>,
                    },
                forall|k: int| 0 <= k < i ==> #[trigger] elems[k] is Some,
                packages.len() == i,
                forall|k: int| 0 <= k < i ==> (#[trigger] packages@[k])@ == elems[k]->0,
            decreases items.len() - i,
        {
            match &items[i] {
                Some(s) => {
                    assert(elems[i as int] == Some(s@));
                    packages.push(s.clone());
                },
                None => {
                    assert(elems[i as int] is None);
                    return None;
                },
            }
            i += 1;
        }
        assert(views(packages@) =~= elems.map_values(|o: Option<Seq<char>>| o->0));
        Some(LernaMonorepoConfig { packages })
    }

    /// A monorepo with the package globs of `config`; `None` where one of them
    /// is malformed or globset cannot compile them together.
    pub fn from_config(config: &LernaMonorepoConfig) -> (r: Option<LernaMonorepo>)
        ensures
            r is Some <==> patterns_compile(config@),
            r matches Some(m) ==> m.wf() && m.patterns() == config@,
    {
        match PackageGlobs::compile(config.packages()) {
            Some(g) => Some(LernaMonorepo { packages_globset: g }),
            None => None,
        }
    }

    /// A monorepo from the text of its `lerna.json`; `None` where the text
    /// declares no package patterns or they do not compile.
    pub fn new(lerna_json: &str) -> (r: Option<LernaMonorepo>)
        ensures
            r is Some <==> (declared_packages(lerna_json@) matches Some(p) && patterns_compile(p)),
            r matches Some(m) ==> m.wf() && declared_packages(lerna_json@) == Some(m.patterns()),
    {
        match Self::parse_lerna_config(lerna_json) {
            Some(config) => Self::from_config(&config),
            None => None,
        }
    }

    /// The package of the file at `entry`, a path relative to the repository
    /// root: the name declared in the manifest of the nearest directory that
    /// holds the file, has a manifest declaring a name, and matches a package
    /// glob. The walk stops there, even where that name stands for no package
    /// name; it never reaches the root.
    pub fn get_package_name_for_file(&self, entry: &str, manifests: &ManifestFiles) -> (r: Option<
        String,
    >)
        requires
            self.wf(),
            manifests.wf(),
        ensures
            r is None <==> package_for_file(self.patterns(), manifests@, entry@) is None,
            r matches Some(n) ==> package_for_file(self.patterns(), manifests@, entry@) == Some(
                n@,
            ),
    {
        let ghost patterns = self.patterns();
        let cs = chars_of(entry);
        let mut i: usize = cs.len();
        assert(cs@.take(i as int) == cs@);
        while i > 0
            invariant
                i <= cs.len(),
                cs@ == entry@,
                patterns == self.patterns(),
                self.wf(),
                manifests.wf(),
                package_for_file(patterns, manifests@, entry@) == package_in_dirs(
                    patterns,
                    manifests@,
                    ancestor_dirs(cs@.take(i as int)),
                ),
            decreases i,
        {
            assert(cs@.take(i as int).drop_last() == cs@.take(i - 1));
            if cs[i - 1] == '/' && i - 1 > 0 {
                let dir = prefix_string(&cs, i - 1);
                let ghost dirs = ancestor_dirs(cs@.take(i as int));
                assert(dirs[0] == dir@);
                assert(dirs.drop_first() == ancestor_dirs(cs@.take(i - 1)));
                match read_manifest(manifests, &dir) {
                    Some(name) => {
                        if self.packages_globset.is_match(dir.as_str()) {
                            return normalize_package_name(name.as_str());
                        }
                    },
                    None => {},
                }
            }
            i -= 1;
        }
        None
    }

    /// The scopes of a commit that changes the files at `staged_changes`:
    /// the non-empty package names they belong to, each once, in
    /// lexicographic order.
    pub fn get_commit_scopes(&self, staged_changes: &Vec<String>, manifests: &ManifestFiles) -> (r:
        Vec<String>)
        requires
            self.wf(),
            manifests.wf(),
        ensures
            strictly_sorted(views(r@)),
            views(r@).to_set() == scope_set(self.patterns(), manifests@, views(staged_changes@)),
    {
        let ghost patterns = self.patterns();
        let ghost paths = views(staged_changes@);
        let mut r: Vec<String> = Vec::new();
        let mut i: usize = 0;
        assert(views(r@).to_set() =~= scope_set(patterns, manifests@, paths.take(0)));
        while i < staged_changes.len()
            invariant
                i <= staged_changes.len(),
                patterns == self.patterns(),
                paths == views(staged_changes@),
                self.wf(),
                manifests.wf(),
                strictly_sorted(views(r@)),
                views(r@).to_set() == scope_set(patterns, manifests@, paths.take(i as int)),
            decreases staged_changes.len() - i,
        {
            let ghost before = views(r@).to_set();
            let found = self.get_package_name_for_file(staged_changes[i].as_str(), manifests);
            let ghost next = paths.take(i + 1);
            assert(next[i as int] == paths[i as int]);
            assert forall|k: int| 0 <= k < i implies next[k] == #[trigger] paths.take(i as int)[k] by {}
            match found {
                Some(name) => {
                    if !name.as_str().is_empty() {
                        let ghost n = name@;
                        insert_sorted(&mut r, name);
                        assert(views(r@).to_set() =~= scope_set(patterns, manifests@, next));
                    } else {
                        assert(views(r@).to_set() =~= scope_set(patterns, manifests@, next));
                    }
                },
                None => {
                    assert(views(r@).to_set() =~= scope_set(patterns, manifests@, next));
                },
            }
            i += 1;
        }
        assert(paths.take(i as int) == paths);
        r
    }
}

/// Files that all belong to one package, of a non-empty name, give that
/// name once: the sorted listing of their scopes is that name alone.
pub proof fn lemma_one_package_listed_once(
    patterns: Seq<Seq<char>>,
    manifests: Map<Seq<char>, Seq<char>>,
    paths: Seq<Seq<char>>,
    name: Seq<char>,
    listing: Seq<Seq<char>>,
)
    requires
        paths.len() > 0,
        name.len() > 0,
        forall|i: int|
            0 <= i < paths.len() ==> #[trigger] package_for_file(patterns, manifests, paths[i])
                == Some(name),
        strictly_sorted(listing),
        listing.to_set() == scope_set(patterns, manifests, paths),
    ensures
        listing == seq![name],
{
    assert(package_for_file(patterns, manifests, paths[0]) == Some(name));
    assert(scope_set(patterns, manifests, paths) =~= set![name]);
    assert(seq![name].to_set() =~= set![name]) by {
        assert(seq![name][0] == name);
    }
    lemma_sorted_listing_unique(listing, seq![name]);
}

/// The sorted listing of the scopes of a set of changed files does not
/// depend on the order in which the files come, nor on repeats; it holds as
/// many names as there are distinct non-empty package names among them.
pub proof fn lemma_scopes_ignore_file_order(
    patterns: Seq<Seq<char>>,
    manifests: Map<Seq<char>, Seq<char>>,
    paths: Seq<Seq<char>>,
    reordered: Seq<Seq<char>>,
    listing: Seq<Seq<char>>,
    reordered_listing: Seq<Seq<char>>,
)
    requires
        paths.to_set() == reordered.to_set(),
        strictly_sorted(listing),
        strictly_sorted(reordered_listing),
        listing.to_set() == scope_set(patterns, manifests, paths),
        reordered_listing.to_set() == scope_set(patterns, manifests, reordered),
    ensures
        listing == reordered_listing,
        listing.len() == scope_set(patterns, manifests, paths).len(),
{
    assert forall|n: Seq<char>|
        scope_set(patterns, manifests, paths).contains(n) implies scope_set(
        patterns,
        manifests,
        reordered,
    ).contains(n) by {
        let i = choose|i: int|
            0 <= i < paths.len() && #[trigger] package_for_file(patterns, manifests, paths[i])
                == Some(n);
        assert(paths.to_set().contains(paths[i]));
        let j = choose|j: int| 0 <= j < reordered.len() && reordered[j] == paths[i];
        assert(package_for_file(patterns, manifests, reordered[j]) == Some(n));
    }
    assert forall|n: Seq<char>|
        scope_set(patterns, manifests, reordered).contains(n) implies scope_set(
        patterns,
        manifests,
        paths,
    ).contains(n) by {
        let i = choose|i: int|
            0 <= i < reordered.len() && #[trigger] package_for_file(
                patterns,
                manifests,
                reordered[i],
            ) == Some(n);
        assert(reordered.to_set().contains(reordered[i]));
        let j = choose|j: int| 0 <= j < paths.len() && paths[j] == reordered[i];
        assert(package_for_file(patterns, manifests, paths[j]) == Some(n));
    }
    assert(scope_set(patterns, manifests, paths) =~= scope_set(patterns, manifests, reordered));
    lemma_sorted_listing_unique(listing, reordered_listing);
    lemma_sorted_listing_len(listing);
}

proof fn lemma_unmatched_manifest_ignored_in_dirs(
    patterns: Seq<Seq<char>>,
    manifests: Map<Seq<char>, Seq<char>>,
    dir: Seq<char>,
    dirs: Seq<Seq<char>>,
)
    requires
        !any_glob_matches(patterns, dir),
    ensures
        package_in_dirs(patterns, manifests, dirs) == package_in_dirs(
            patterns,
            manifests.remove(dir),
            dirs,
        ),
    decreases dirs.len(),
{
    if dirs.len() > 0 {
        lemma_unmatched_manifest_ignored_in_dirs(patterns, manifests, dir, dirs.drop_first());
        if dirs[0] != dir {
            assert(manifest_name(manifests, dirs[0]) == manifest_name(
                manifests.remove(dir),
                dirs[0],
            ));
        }
    }
}

/// A manifest in a directory that matches no package glob is ignored: every
/// file belongs to the same package whether or not that directory has a
/// manifest, and whatever it holds.
pub proof fn lemma_unmatched_manifest_ignored(
    patterns: Seq<Seq<char>>,
    manifests: Map<Seq<char>, Seq<char>>,
    dir: Seq<char>,
    path: Seq<char>,
)
    requires
        !any_glob_matches(patterns, dir),
    ensures
        package_for_file(patterns, manifests, path) == package_for_file(
            patterns,
            manifests.remove(dir),
            path,
        ),
{
    lemma_unmatched_manifest_ignored_in_dirs(patterns, manifests, dir, ancestor_dirs(path));
}

/// A file none of whose directories matches a package glob belongs to no
/// package, whatever manifests those directories hold.
pub proof fn lemma_no_matching_dir_no_package(
    patterns: Seq<Seq<char>>,
    manifests: Map<Seq<char>, Seq<char>>,
    path: Seq<char>,
)
    requires
        forall|i: int|
            0 <= i < ancestor_dirs(path).len() ==> !any_glob_matches(
                patterns,
                #[trigger] ancestor_dirs(path)[i],
            ),
    ensures
        package_for_file(patterns, manifests, path) is None,
{
    lemma_none_in_unmatched_dirs(patterns, manifests, ancestor_dirs(path));
}

proof fn lemma_none_in_unmatched_dirs(
    patterns: Seq<Seq<char>>,
    manifests: Map<Seq<char>, Seq<char>>,
    dirs: Seq<Seq<char>>,
)
    requires
        forall|i: int| 0 <= i < dirs.len() ==> !any_glob_matches(patterns, #[trigger] dirs[i]),
    ensures
        package_in_dirs(patterns, manifests, dirs) is None,
    decreases dirs.len(),
{
    if dirs.len() > 0 {
        assert(!any_glob_matches(patterns, dirs[0]));
        assert forall|i: int| 0 <= i < dirs.drop_first().len() implies !any_glob_matches(
            patterns,
            #[trigger] dirs.drop_first()[i],
        ) by {
            assert(dirs.drop_first()[i] == dirs[i + 1]);
        }
        lemma_none_in_unmatched_dirs(patterns, manifests, dirs.drop_first());
    }
}

} // verus!
