//! Helpers for paths that start at the home directory, and for the branch
//! of a repository.

use crate::git::branch_of;
use crate::path::{join_path, joined_path};
use crate::text::{from_chars, has_prefix_at, is_word_at, to_chars, trim_range};
use vstd::prelude::*;

verus! {

/// The character that stands for the home directory at the start of a
/// path.
pub const HOME_MARK: char = '~';

/// Whether the path begins with the mark of the home directory.
pub open spec fn is_home_relative(path: Seq<char>) -> bool {
    path.len() > 0 && path[0] == HOME_MARK
}

/// Whether the path can be expanded: after the mark of the home directory
/// stands one more character, an ASCII one, which the expansion drops
/// together with the mark.
pub open spec fn is_expandable(path: Seq<char>) -> bool {
    is_home_relative(path) ==> path.len() >= 2 && (path[1] as u32) < 0x80
}

/// The path with the home directory in place of its mark: what follows the
/// mark and the character after it is adjoined to `home`. A path without
/// the mark stays as it is, and so does any path where no home directory
/// is known.
pub open spec fn expanded(path: Seq<char>, home: Option<Seq<char>>) -> Seq<char> {
    match home {
        Some(dir) if is_home_relative(path) => joined_path(dir, path.skip(2)),
        _ => path,
    }
}

/// The home directory of the current user, as `dirs::home_dir` finds it in
/// the environment. Nothing is known of the result: the same call may give
/// another directory, or none, in another environment.
#[verifier::external_body]
pub(crate) fn home_dir() -> Option<String> {
    dirs::home_dir().map(|dir| dir.to_string_lossy().into_owned())
}

/// Whether the path can be expanded.
pub fn can_expand(path: &str) -> (b: bool)
    ensures
        b == is_expandable(path@),
{
    let chars = to_chars(path);
    if chars.len() > 0 && chars[0] == HOME_MARK {
        chars.len() >= 2 && (chars[1] as u32) < 0x80
    } else {
        true
    }
}

/// Expands a path against the given home directory. Without a home
/// directory every path comes back as it is.
pub fn expand_path_in(path: &str, home: Option<&str>) -> (full: String)
    requires
        home is Some ==> is_expandable(path@),
    ensures
        full@ == expanded(path@, home.deep_view()),
{
    let chars = to_chars(path);
    if chars.len() > 0 && chars[0] == HOME_MARK {
        match home {
            Some(dir) => {
                let rest = from_chars(&chars, 2, chars.len());
                join_path(dir, rest.as_str())
            },
            None => path.to_owned(),
        }
    } else {
        path.to_owned()
    }
}

/// Expands a path that starts with `~` against the home directory of the
/// current user. Where the path has no such start, or no home directory is
/// known, the path comes back as it is.
pub fn expand_path(path: &str) -> (full: String)
    requires
        is_expandable(path@),
    ensures
        exists|home: Option<Seq<char>>| full@ == expanded(path@, home),
        !is_home_relative(path@) ==> full@ == path@,
{
    let chars = to_chars(path);
    if chars.len() > 0 && chars[0] == HOME_MARK {
        let home = home_dir();
        match &home {
            Some(dir) => expand_path_in(path, Some(dir.as_str())),
            None => expand_path_in(path, None),
        }
    } else {
        let full = path.to_owned();
        assert(full@ == expanded(path@, None));
        full
    }
}

/// The branch that a repository is on, read from the contents of its
/// `HEAD` file: the name after `ref: refs/heads/`, trimmed. The default
/// branches `master` and `main`, an empty name and a detached `HEAD` give
/// none.
pub fn get_repository_branch(head: &str) -> (branch: Option<String>)
    ensures
        branch.deep_view() == branch_of(head@),
{
    let chars = to_chars(head);
    let prefix = to_chars("ref: refs/heads/");
    let (lo, hi) = trim_range(&chars, 0, chars.len());
    assert(chars@.subrange(0, chars.len() as int) =~= chars@);
    if !has_prefix_at(&chars, lo, hi, &prefix) {
        return None;
    }
    let (from, to) = trim_range(&chars, lo + prefix.len(), hi);
    proof {
        let text = chars@.subrange(lo as int, hi as int);
        assert(text.skip(prefix@.len() as int) =~= chars@.subrange(lo + prefix@.len(), hi as int));
    }
    if from == to || is_word_at(&chars, from, to, "master") || is_word_at(&chars, from, to, "main") {
        None
    } else {
        Some(from_chars(&chars, from, to))
    }
}

} // verus!
