//! Rewriting the message that git proposes for a commit so that its header
//! names the commit's scopes.

use vstd::prelude::*;
use vstd::string::*;

use crate::text::{chars_match_at, chars_of, comma_joined, has_prefix, join_commas, push_char, str_eq, views};

verus! {

/// The commit type words, in the order they are tried.
pub open spec fn commit_type_words() -> Seq<Seq<char>> {
    seq![
        "build"@,
        "ci"@,
        "chore"@,
        "docs"@,
        "feat"@,
        "fix"@,
        "perf"@,
        "refactor"@,
        "revert"@,
        "style"@,
        "test"@,
    ]
}

/// The commit type words, in the order they are tried.
pub fn commit_types() -> (r: Vec<&'static str>)
    ensures
        r@.map_values(|t: &str| t@) == commit_type_words(),
{
    let r = vec![
        "build",
        "ci",
        "chore",
        "docs",
        "feat",
        "fix",
        "perf",
        "refactor",
        "revert",
        "style",
        "test",
    ];
    assert(r@.map_values(|t: &str| t@) =~= commit_type_words());
    r
}

/// The first of `types` that `message`, read from its start, opens with
/// followed by a `:`.
pub open spec fn first_type_prefix(types: Seq<Seq<char>>, message: Seq<char>) -> Option<Seq<char>>
    decreases types.len(),
{
    if types.len() == 0 {
        None
    } else if has_prefix(message, types[0] + seq![':']) {
        Some(types[0])
    } else {
        first_type_prefix(types.drop_first(), message)
    }
}

/// The message with `chore({scopes}):` and a line break put before it.
pub open spec fn default_message(message: Seq<char>, scopes: Seq<Seq<char>>) -> Seq<char> {
    "chore("@ + comma_joined(scopes) + "):\n"@ + message
}

/// Where the message's first line opens with `{type}:` for a commit type
/// word, the message with that prefix turned into `{type}({scopes}):` and
/// the rest kept as it is; otherwise none.
pub open spec fn typed_message(message: Seq<char>, scopes: Seq<Seq<char>>) -> Option<Seq<char>> {
    match first_type_prefix(commit_type_words(), message) {
        Some(t) => Some(
            t + seq!['('] + comma_joined(scopes) + seq![')', ':'] + message.skip(t.len() as int + 1),
        ),
        None => None,
    }
}

/// The new text of the commit message file, where it is to change: none
/// where there are no scopes or the commit source is neither absent nor
/// `message`.
pub open spec fn updated_message(
    commit_source: Option<Seq<char>>,
    message: Seq<char>,
    scopes: Seq<Seq<char>>,
) -> Option<Seq<char>> {
    if scopes.len() == 0 {
        None
    } else {
        match commit_source {
            None => Some(default_message(message, scopes)),
            Some(s) => if s == "message"@ {
                typed_message(message, scopes)
            } else {
                None
            },
        }
    }
}

/// What to do with git's proposed message for a commit.
pub struct PrepareCommitMessage {
    /// How git came by the message: none for a fresh commit, `message` where
    /// it was given with `-m` or `-F`, or another source (`template`,
    /// `merge`, `squash`, `commit`).
    pub commit_source: Option<String>,
}

impl PrepareCommitMessage {
    /// The view of the commit source.
    pub open spec fn source(&self) -> Option<Seq<char>> {
        match self.commit_source {
            Some(s) => Some(s@),
            None => None,
        }
    }

    /// The new text of the commit message file for a commit with `scopes`;
    /// none where the file is to stay as it is.
    pub fn new_commit_message(&self, commit_msg: &str, scopes: Vec<String>) -> (r: Option<String>)
        ensures
            r is None <==> updated_message(self.source(), commit_msg@, views(scopes@)) is None,
            r matches Some(m) ==> updated_message(self.source(), commit_msg@, views(scopes@))
                == Some(m@),
    {
        if scopes.len() == 0 {
            return None;
        }
        match &self.commit_source {
            None => self.handle_default(commit_msg, scopes),
            Some(source) => {
                if str_eq(source.as_str(), "message") {
                    self.handle_message_commit_source(commit_msg, scopes)
                } else {
                    None
                }
            },
        }
    }

    /// The message with `chore({scopes}):` and a line break put before it.
    pub fn handle_default(&self, commit_msg: &str, scopes: Vec<String>) -> (r: Option<String>)
        ensures
            r matches Some(m) && m@ == default_message(commit_msg@, views(scopes@)),
    {
        let mut m = String::from_str("chore(");
        m.append(join_commas(&scopes).as_str());
        m.append("):\n");
        m.append(commit_msg);
        Some(m)
    }

    /// Where the message opens with `{type}:` for a commit type word, the
    /// message with that prefix turned into `{type}({scopes}):`.
    pub fn handle_message_commit_source(&self, commit_msg: &str, scopes: Vec<String>) -> (r:
        Option<String>)
        ensures
            r is None <==> typed_message(commit_msg@, views(scopes@)) is None,
            r matches Some(m) ==> typed_message(commit_msg@, views(scopes@)) == Some(m@),
    {
        let types = commit_types();
        let ghost words = commit_type_words();
        let cs = chars_of(commit_msg);
        let mut i: usize = 0;
        assert(words.skip(0) == words);
        while i < types.len()
            invariant
                i <= types.len(),
                cs@ == commit_msg@,
                types@.map_values(|t: &str| t@) == words,
                words == commit_type_words(),
                first_type_prefix(words, commit_msg@) == first_type_prefix(
                    words.skip(i as int),
                    commit_msg@,
                ),
            decreases types.len() - i,
        {
            assert(words.skip(i + 1) == words.skip(i as int).drop_first());
            assert(words[i as int] == types@[i as int]@);
            let mut pattern = String::from_str(types[i]);
            push_char(&mut pattern, ':');
            let pat = chars_of(pattern.as_str());
            assert(pattern@ =~= words[i as int] + seq![':']);
            assert(words.skip(i as int)[0] == words[i as int]);
            assert(cs@.skip(0) == cs@);
            if chars_match_at(&cs, 0, &pat) {
                let mut replacement = String::from_str(types[i]);
                push_char(&mut replacement, '(');
                replacement.append(join_commas(&scopes).as_str());
                push_char(&mut replacement, ')');
                push_char(&mut replacement, ':');
                assert(replacement@ =~= words[i as int] + seq!['('] + comma_joined(views(scopes@))
                    + seq![')', ':']);
                assert(pat.len() == words[i as int].len() + 1);
                let rest = commit_msg.substring_char(pat.len(), cs.len());
                assert(rest@ == commit_msg@.skip(words[i as int].len() as int + 1));
                replacement.append(rest);
                return Some(replacement);
            }
            i += 1;
        }
        None
    }
}

} // verus!
