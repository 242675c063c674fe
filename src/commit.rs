//! Conventional-commit headers: a type word picked by a short hint, and the
//! scopes in parentheses.

use vstd::prelude::*;
use vstd::string::*;

use crate::text::{comma_joined, join_commas, str_eq, views};

verus! {

/// Why no commit message could be formed.
#[derive(Debug, Clone, Copy, PartialEq, Eq, Structural)]
pub enum CommitMessageError {
    /// The type hint is not empty and names no commit type.
    UnknownTypeHint,
}

/// The commit type word that a non-empty hint stands for, where it is one of
/// the short codes.
pub open spec fn hinted_type(hint: Seq<char>) -> Option<Seq<char>> {
    if hint == "b"@ {
        Some("build"@)
    } else if hint == "ci"@ {
        Some("ci"@)
    } else if hint == "c"@ {
        Some("chore"@)
    } else if hint == "d"@ {
        Some("docs"@)
    } else if hint == "f"@ {
        Some("feat"@)
    } else if hint == "fx"@ {
        Some("fix"@)
    } else if hint == "p"@ {
        Some("perf"@)
    } else if hint == "r"@ {
        Some("refactor"@)
    } else if hint == "rv"@ {
        Some("revert"@)
    } else if hint == "s"@ {
        Some("style"@)
    } else if hint == "t"@ {
        Some("test"@)
    } else {
        None
    }
}

/// The commit type word for an optional hint: `chore` where there is no hint
/// or it is empty; none where a non-empty hint is no short code.
pub open spec fn commit_type_of(hint: Option<Seq<char>>) -> Option<Seq<char>> {
    match hint {
        None => Some("chore"@),
        Some(h) => if h.len() == 0 {
            Some("chore"@)
        } else {
            hinted_type(h)
        },
    }
}

/// The view of an optional string.
pub open spec fn opt_str_view(s: Option<&str>) -> Option<Seq<char>> {
    match s {
        Some(t) => Some(t@),
        None => None,
    }
}

/// The message `{type}({scopes}): commit message`, or `{type}: commit message`
/// where there are no scopes.
pub open spec fn commit_message(commit_type: Seq<char>, scopes: Seq<Seq<char>>) -> Seq<char> {
    if scopes.len() > 0 {
        commit_type + "("@ + comma_joined(scopes) + "): commit message"@
    } else {
        commit_type + ": commit message"@
    }
}

/// The commit type word that `hint` selects; see [`commit_type_of`].
pub fn commit_type(hint: Option<&str>) -> (r: Result<&'static str, CommitMessageError>)
    ensures
        r is Err <==> commit_type_of(opt_str_view(hint)) is None,
        r matches Ok(t) ==> commit_type_of(opt_str_view(hint)) == Some(t@),
        r matches Err(e) ==> e == CommitMessageError::UnknownTypeHint,
{
    let h = match hint {
        None => return Ok("chore"),
        Some(h) => h,
    };
    if h.is_empty() {
        Ok("chore")
    } else if str_eq(h, "b") {
        Ok("build")
    } else if str_eq(h, "ci") {
        Ok("ci")
    } else if str_eq(h, "c") {
        Ok("chore")
    } else if str_eq(h, "d") {
        Ok("docs")
    } else if str_eq(h, "f") {
        Ok("feat")
    } else if str_eq(h, "fx") {
        Ok("fix")
    } else if str_eq(h, "p") {
        Ok("perf")
    } else if str_eq(h, "r") {
        Ok("refactor")
    } else if str_eq(h, "rv") {
        Ok("revert")
    } else if str_eq(h, "s") {
        Ok("style")
    } else if str_eq(h, "t") {
        Ok("test")
    } else {
        Err(CommitMessageError::UnknownTypeHint)
    }
}

/// The suggested commit message for a type hint and the commit's scopes;
/// fails where the hint is not empty and names no commit type.
pub fn format_commit(type_hint: Option<&str>, scopes: &Vec<String>) -> (r: Result<
    String,
    CommitMessageError,
>)
    ensures
        r is Err <==> commit_type_of(opt_str_view(type_hint)) is None,
        r matches Ok(m) ==> m@ == commit_message(
            commit_type_of(opt_str_view(type_hint))->0,
            views(scopes@),
        ),
        r matches Err(e) ==> e == CommitMessageError::UnknownTypeHint,
{
    let commit_type = match commit_type(type_hint) {
        Ok(t) => t,
        Err(e) => return Err(e),
    };
    let mut message = String::from_str(commit_type);
    if scopes.len() > 0 {
        message.append("(");
        message.append(join_commas(scopes).as_str());
        message.append("): commit message");
    } else {
        message.append(": commit message");
    }
    Ok(message)
}

} // verus!
