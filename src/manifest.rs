//! Package manifests: the `package.json` files found in a repository's
//! directories, and the package names they declare.

use vstd::prelude::*;

use crate::json::{json_string_member, string_member};
use crate::text::{chars_of, string_of};

verus! {

/// Looks `dir` up in `entries`, the latest entry for it winning.
pub open spec fn entries_lookup(entries: Seq<(Seq<char>, Seq<char>)>, dir: Seq<char>) -> Option<Seq<char>>
    decreases entries.len(),
{
    if entries.len() == 0 {
        None
    } else if entries.last().0 == dir {
        Some(entries.last().1)
    } else {
        entries_lookup(entries.drop_last(), dir)
    }
}

/// The manifest texts of a repository, by directory relative to its root.
pub struct ManifestFiles {
    dirs: Vec<String>,
    contents: Vec<String>,
}

impl ManifestFiles {
    pub closed spec fn wf(&self) -> bool {
        self.dirs.len() == self.contents.len()
    }

    closed spec fn entries(&self) -> Seq<(Seq<char>, Seq<char>)> {
        Seq::new(self.dirs.len() as nat, |i: int| (self.dirs@[i]@, self.contents@[i]@))
    }
}

impl View for ManifestFiles {
    type V = Map<Seq<char>, Seq<char>>;

    /// Each directory that has a manifest, to the manifest's text.
    closed spec fn view(&self) -> Map<Seq<char>, Seq<char>> {
        Map::new(
            |d: Seq<char>| entries_lookup(self.entries(), d) is Some,
            |d: Seq<char>| entries_lookup(self.entries(), d)->0,
        )
    }
}

impl ManifestFiles {
    /// A table in which no directory has a manifest.
    pub fn new() -> (r: ManifestFiles)
        ensures
            r.wf(),
            r@ == Map::<Seq<char>, Seq<char>>::empty(),
    {
        let r = ManifestFiles { dirs: Vec::new(), contents: Vec::new() };
        assert(r@ =~= Map::<Seq<char>, Seq<char>>::empty());
        r
    }

    /// Records that directory `dir` has a manifest holding `contents`,
    /// replacing what was recorded for it before.
    pub fn insert(&mut self, dir: String, contents: String)
        requires
            old(self).wf(),
        ensures
            final(self).wf(),
            final(self)@ == old(self)@.insert(dir@, contents@),
    {
        let ghost d = dir@;
        let ghost c = contents@;
        self.dirs.push(dir);
        self.contents.push(contents);
        assert(self.entries().drop_last() == old(self).entries());
        assert(self@ =~= old(self)@.insert(d, c));
    }

    /// The text of the manifest in directory `dir`, if it has one.
    pub fn get(&self, dir: &String) -> (r: Option<&String>)
        requires
            self.wf(),
        ensures
            r is Some <==> self@.contains_key(dir@),
            r matches Some(t) ==> self@[dir@] == t@,
    {
        let mut i: usize = self.dirs.len();
        assert(self.entries().take(i as int) == self.entries());
        while i > 0
            invariant
                self.wf(),
                i <= self.dirs.len(),
                entries_lookup(self.entries(), dir@) == entries_lookup(self.entries().take(i as int), dir@),
            decreases i,
        {
            assert(self.entries().take(i as int).drop_last() == self.entries().take(i - 1));
            if self.dirs[i - 1] == *dir {
                return Some(&self.contents[i - 1]);
            }
            i -= 1;
        }
        None
    }
}

/// The part of `s` before its first `/`; all of `s` where it holds none.
pub open spec fn before_slash(s: Seq<char>) -> Seq<char>
    decreases s.len(),
{
    if s.len() == 0 {
        s
    } else if s[0] == '/' {
        Seq::empty()
    } else {
        seq![s[0]] + before_slash(s.drop_first())
    }
}

/// The part of `s` after its first `/`, where it holds one.
pub open spec fn after_slash(s: Seq<char>) -> Option<Seq<char>>
    decreases s.len(),
{
    if s.len() == 0 {
        None
    } else if s[0] == '/' {
        Some(s.drop_first())
    } else {
        after_slash(s.drop_first())
    }
}

/// The package name that a declared name stands for: a scoped name
/// `@scope/name` stands for the segment after the first `/`, and for none
/// where there is no `/` or that segment is empty; any other name stands
/// for itself.
pub open spec fn normalized_name(declared: Seq<char>) -> Option<Seq<char>> {
    if declared.len() > 0 && declared[0] == '@' {
        match after_slash(declared) {
            Some(rest) => if before_slash(rest).len() > 0 {
                Some(before_slash(rest))
            } else {
                None
            },
            None => None,
        }
    } else {
        Some(declared)
    }
}

/// The package name that a manifest text declares, where it is a JSON object
/// with a string member `name`.
pub open spec fn declared_name(text: Seq<char>) -> Option<Seq<char>> {
    json_string_member(text, "name"@)
}

/// The name declared by the manifest of directory `dir`, where it has one
/// that declares a name.
pub open spec fn manifest_name(manifests: Map<Seq<char>, Seq<char>>, dir: Seq<char>) -> Option<Seq<char>> {
    if manifests.contains_key(dir) {
        declared_name(manifests[dir])
    } else {
        None
    }
}

/// The package name that `declared` stands for; see [`normalized_name`].
pub fn normalize_package_name(declared: &str) -> (r: Option<String>)
    ensures
        r is None <==> normalized_name(declared@) is None,
        r matches Some(n) ==> normalized_name(declared@) == Some(n@),
{
    let cs = chars_of(declared);
    if cs.len() == 0 || cs[0] != '@' {
        return Some(string_of(&cs));
    }
    let mut i: usize = 0;
    assert(cs@.skip(0) == cs@);
    while i < cs.len() && cs[i] != '/'
        invariant
            i <= cs.len(),
            after_slash(cs@) == after_slash(cs@.skip(i as int)),
        decreases cs.len() - i,
    {
        assert(cs@.skip(i + 1) == cs@.skip(i as int).drop_first());
        i += 1;
    }
    if i == cs.len() {
        return None;
    }
    assert(cs@.skip(i + 1) == cs@.skip(i as int).drop_first());
    let ghost rest = cs@.skip(i + 1);
    let mut seg: Vec<char> = Vec::new();
    let mut j: usize = i + 1;
    while j < cs.len() && cs[j] != '/'
        invariant
            i < j <= cs.len(),
            rest == cs@.skip(i + 1),
            before_slash(rest) == seg@ + before_slash(cs@.skip(j as int)),
        decreases cs.len() - j,
    {
        assert(cs@.skip(j + 1) == cs@.skip(j as int).drop_first());
        seg.push(cs[j]);
        j += 1;
    }
    assert(before_slash(cs@.skip(j as int)) == Seq::<char>::empty());
    assert(seg@ + Seq::<char>::empty() == seg@);
    if seg.len() == 0 {
        return None;
    }
    Some(string_of(&seg))
}

/// The name declared by the manifest of directory `dir`, where `manifests`
/// holds one for it that is a JSON object with a string member `name`.
pub fn read_manifest(manifests: &ManifestFiles, dir: &String) -> (r: Option<String>)
    requires
        manifests.wf(),
    ensures
        r is None <==> manifest_name(manifests@, dir@) is None,
        r matches Some(n) ==> manifest_name(manifests@, dir@) == Some(n@),
{
    match manifests.get(dir) {
        Some(text) => string_member(text.as_str(), "name"),
        None => None,
    }
}

} // verus!
