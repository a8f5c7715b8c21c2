//! The `shortpath` command: a path shortened for a shell prompt.

use crate::short_path::{shorten_path, shortened, ShortPathPart};
use crate::text::same_text;
use vstd::prelude::*;

verus! {

/// How many segments at the end of the Infix the command shows in full.
pub const DEPTH: usize = 1;

/// The zones that the command prints: the Prefix alone for the project,
/// the Infix and the Suffix for the directory, else all three.
pub open spec fn selected_parts(project: bool, dir: bool) -> Seq<ShortPathPart> {
    if project {
        seq![ShortPathPart::Prefix]
    } else if dir {
        seq![ShortPathPart::Infix, ShortPathPart::Suffix]
    } else {
        seq![ShortPathPart::Prefix, ShortPathPart::Infix, ShortPathPart::Suffix]
    }
}

/// The path that the argument names: the current directory for `.`, where
/// it is known, else the argument itself.
pub open spec fn named_path(argument: Seq<char>, current_dir: Option<Seq<char>>) -> Seq<char> {
    match current_dir {
        Some(dir) if argument == "."@ => dir,
        _ => argument,
    }
}

/// Whether the argument stands for the current directory.
pub fn names_current_dir(argument: &str) -> (b: bool)
    ensures
        b == (argument@ == "."@),
{
    same_text(argument, ".")
}

/// The path that the argument names, before it is made canonical.
pub fn expand_path(argument: &str, current_dir: Option<String>) -> (path: String)
    ensures
        path@ == named_path(argument@, current_dir.deep_view()),
{
    match current_dir {
        Some(dir) => if names_current_dir(argument) {
            dir
        } else {
            argument.to_owned()
        },
        None => argument.to_owned(),
    }
}

/// The line that the command prints for `path`. The repository's directory
/// is made of the first `anchor` components of the path, and `head` holds
/// the contents of the repository's `HEAD` file where it could be read.
pub fn handle(
    path: &str,
    anchor: Option<usize>,
    head: Option<&str>,
    project: bool,
    dir: bool,
) -> (output: String)
    ensures
        output@ == shortened(
            path@,
            match anchor {
                Some(depth) => Some(depth as nat),
                None => None,
            },
            head.deep_view(),
        ).rendered(DEPTH as nat, selected_parts(project, dir)),
{
    let short = shorten_path(path, anchor, head);
    if project {
        let parts = [ShortPathPart::Prefix];
        assert(parts@ =~= selected_parts(project, dir));
        short.build(DEPTH, &parts)
    } else if dir {
        let parts = [ShortPathPart::Infix, ShortPathPart::Suffix];
        short.build(DEPTH, &parts)
    } else {
        let parts = [ShortPathPart::Prefix, ShortPathPart::Infix, ShortPathPart::Suffix];
        short.build(DEPTH, &parts)
    }
}

} // verus!
