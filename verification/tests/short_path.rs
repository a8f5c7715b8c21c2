use jumpr::commands::shortpath::{expand_path, handle, names_current_dir};
use jumpr::git::{AnchorWalk, GitEntry};
use jumpr::short_path::abbreviate;
use jumpr::ShortPathPart::{Infix, Prefix, Suffix};
use jumpr::{shorten_path, ShortPath};

fn names(zone: &[String]) -> Vec<&str> {
    zone.iter().map(|name| name.as_str()).collect()
}

fn owned(names: &[&str]) -> Vec<String> {
    names.iter().map(|name| name.to_string()).collect()
}

#[test]
fn repository_path_is_split_into_three_zones() {
    let short = shorten_path("/home/alice/proj/sub/dir", Some(3), Some("ref: refs/heads/dev\n"));
    assert_eq!(names(&short.prefix), vec!["home", "alice", "proj"]);
    assert_eq!(names(&short.infix), vec!["sub"]);
    assert_eq!(names(&short.suffix), vec!["dir"]);
    assert_eq!(short.repo_name.as_deref(), Some("proj"));
    assert_eq!(short.branch.as_deref(), Some("dev"));
}

#[test]
fn repository_path_renders_all_parts() {
    let short = shorten_path("/home/alice/proj/sub/dir", Some(3), Some("ref: refs/heads/dev\n"));
    assert_eq!(short.build(1, &[Prefix, Infix, Suffix]), "@proj:dev/sub/dir");
    assert_eq!(short.build(0, &[Prefix, Infix, Suffix]), "@proj:dev/s/dir");
}

#[test]
fn deeper_repository_path_abbreviates_beyond_depth() {
    let short = shorten_path(
        "/home/alice/proj/source/commands/deep/dir",
        Some(3),
        Some("ref: refs/heads/dev\n"),
    );
    assert_eq!(short.build(0, &[Prefix, Infix, Suffix]), "@proj:dev/s/c/d/dir");
    assert_eq!(short.build(1, &[Prefix, Infix, Suffix]), "@proj:dev/s/c/deep/dir");
    assert_eq!(short.build(2, &[Prefix, Infix, Suffix]), "@proj:dev/s/commands/deep/dir");
    assert_eq!(short.build(3, &[Prefix, Infix, Suffix]), "@proj:dev/source/commands/deep/dir");
    assert_eq!(short.build(usize::MAX, &[Prefix, Infix, Suffix]), "@proj:dev/source/commands/deep/dir");
}

#[test]
fn prefix_alone_has_no_trailing_separator() {
    let short = shorten_path("/home/alice/proj/sub/dir", Some(3), Some("ref: refs/heads/dev\n"));
    assert_eq!(short.build(1, &[Prefix]), "@proj:dev");
}

#[test]
fn path_outside_repository_has_empty_prefix() {
    let short = shorten_path("/tmp/a/b/c", None, None);
    assert!(short.prefix.is_empty());
    assert_eq!(short.repo_name, None);
    assert_eq!(short.branch, None);
    assert_eq!(names(&short.infix), vec!["tmp", "a", "b"]);
    assert_eq!(names(&short.suffix), vec!["c"]);
    assert_eq!(short.build(1, &[Prefix, Infix, Suffix]), "t/a/b/c");
    assert_eq!(short.build(1, &[Infix, Suffix]), "t/a/b/c");
    assert_eq!(short.build(1, &[Prefix]), "");
}

#[test]
fn outside_repository_only_infix_beyond_depth_is_abbreviated() {
    let short = shorten_path("/var/cache/apt/archives/partial", None, Some("ref: refs/heads/dev"));
    assert_eq!(short.branch, None);
    assert_eq!(short.build(0, &[Prefix, Infix, Suffix]), "v/c/a/a/partial");
    assert_eq!(short.build(1, &[Prefix, Infix, Suffix]), "v/c/a/archives/partial");
    assert_eq!(short.build(2, &[Prefix, Infix, Suffix]), "v/c/apt/archives/partial");
    assert_eq!(short.build(4, &[Prefix, Infix, Suffix]), "var/cache/apt/archives/partial");
    assert_eq!(short.build(9, &[Infix, Suffix]), "var/cache/apt/archives/partial");
}

#[test]
fn default_branches_are_not_shown() {
    for head in ["ref: refs/heads/main\n", "ref: refs/heads/master\n", "ref: refs/heads/\n", "  ref: refs/heads/main  "] {
        let short = shorten_path("/home/alice/proj/sub/dir", Some(3), Some(head));
        assert_eq!(short.branch, None);
        assert_eq!(short.build(1, &[Prefix]), "@proj");
    }
}

#[test]
fn detached_head_shows_no_branch() {
    let short = shorten_path(
        "/home/alice/proj/sub/dir",
        Some(3),
        Some("4b825dc642cb6eb9a060e54bf8d69288fbee4904\n"),
    );
    assert_eq!(short.branch, None);
    assert_eq!(short.build(1, &[Prefix, Infix, Suffix]), "@proj/sub/dir");
}

#[test]
fn unreadable_head_shows_no_branch() {
    let short = shorten_path("/home/alice/proj/sub/dir", Some(3), None);
    assert_eq!(short.repo_name.as_deref(), Some("proj"));
    assert_eq!(short.branch, None);
    assert_eq!(short.build(1, &[Prefix]), "@proj");
}

#[test]
fn branch_with_slash_is_shown_whole() {
    let short = shorten_path("/home/alice/proj/sub/dir", Some(3), Some("ref: refs/heads/feature/x\n"));
    assert_eq!(short.branch.as_deref(), Some("feature/x"));
    assert_eq!(short.build(1, &[Prefix]), "@proj:feature/x");
}

#[test]
fn zones_rebuild_the_path() {
    for anchor in [None, Some(0), Some(1), Some(3), Some(5), Some(9)] {
        let short = shorten_path("/home/alice/proj/sub/dir", anchor, None);
        let mut all = short.prefix.clone();
        all.extend(short.infix.clone());
        all.extend(short.suffix.clone());
        assert_eq!(names(&all), vec!["home", "alice", "proj", "sub", "dir"]);
        assert!(short.suffix.len() <= 1);
    }
}

#[test]
fn path_that_is_the_repository_has_no_suffix() {
    let short = shorten_path("/home/alice/proj", Some(3), Some("ref: refs/heads/dev"));
    assert_eq!(names(&short.prefix), vec!["home", "alice", "proj"]);
    assert!(short.infix.is_empty());
    assert!(short.suffix.is_empty());
    assert_eq!(short.build(1, &[Prefix, Infix, Suffix]), "@proj:dev");
    assert_eq!(short.build(1, &[Infix, Suffix]), "");
}

#[test]
fn path_directly_inside_the_repository_has_no_infix() {
    let short = shorten_path("/home/alice/proj/dir", Some(3), None);
    assert!(short.infix.is_empty());
    assert_eq!(names(&short.suffix), vec!["dir"]);
    assert_eq!(short.build(1, &[Prefix, Infix, Suffix]), "@proj/dir");
}

#[test]
fn anchor_beyond_the_path_counts_as_the_path() {
    let short = shorten_path("/a/b", Some(7), None);
    assert_eq!(names(&short.prefix), vec!["a", "b"]);
    assert_eq!(short.repo_name.as_deref(), Some("b"));
    assert!(short.suffix.is_empty());
}

#[test]
fn repository_at_the_root_has_an_empty_name() {
    let short = shorten_path("/a/b", Some(0), Some("ref: refs/heads/dev"));
    assert!(short.prefix.is_empty());
    assert_eq!(short.repo_name.as_deref(), Some(""));
    assert_eq!(short.build(1, &[Prefix, Infix, Suffix]), "@:dev/a/b");
}

#[test]
fn root_path_has_three_empty_zones() {
    let short = shorten_path("/", None, None);
    assert!(short.prefix.is_empty() && short.infix.is_empty() && short.suffix.is_empty());
    assert_eq!(short.build(1, &[Prefix, Infix, Suffix]), "");
}

#[test]
fn parts_are_rendered_in_the_order_given() {
    let short = shorten_path("/home/alice/proj/sub/dir", Some(3), None);
    assert_eq!(short.build(1, &[Suffix, Infix, Prefix]), "dir/sub/@proj");
    assert_eq!(short.build(1, &[Suffix, Suffix]), "dir/dir");
    assert_eq!(short.build(1, &[]), "");
}

#[test]
fn rendering_twice_gives_the_same_string() {
    let short = shorten_path("/home/alice/proj/source/sub/dir", Some(3), Some("ref: refs/heads/dev"));
    let first = short.build(1, &[Prefix, Infix, Suffix]);
    let second = short.build(1, &[Prefix, Infix, Suffix]);
    assert_eq!(first.as_bytes(), second.as_bytes());
    let again = shorten_path("/home/alice/proj/source/sub/dir", Some(3), Some("ref: refs/heads/dev"));
    assert_eq!(again.build(1, &[Prefix, Infix, Suffix]), first);
}

#[test]
fn decompose_takes_components_and_branch() {
    let components = owned(&["srv", "repo", "a", "b"]);
    let short = ShortPath::decompose(&components, Some(2), Some("topic".to_string()));
    assert_eq!(names(&short.prefix), vec!["srv", "repo"]);
    assert_eq!(names(&short.infix), vec!["a"]);
    assert_eq!(names(&short.suffix), vec!["b"]);
    assert_eq!(short.build(0, &[Prefix, Infix, Suffix]), "@repo:topic/a/b");
    let outside = ShortPath::decompose(&components, None, Some("topic".to_string()));
    assert_eq!(outside.branch, None);
    assert_eq!(outside.repo_name, None);
}

#[test]
fn abbreviation_keeps_the_first_character() {
    assert_eq!(abbreviate("source"), "s");
    assert_eq!(abbreviate("s"), "s");
    assert_eq!(abbreviate(""), "");
    assert_eq!(abbreviate("éclair"), "é");
}

#[test]
fn shortpath_command_selects_the_zones() {
    let head = Some("ref: refs/heads/dev\n");
    assert_eq!(handle("/home/alice/proj/source/sub/dir", Some(3), head, false, false), "@proj:dev/s/sub/dir");
    assert_eq!(handle("/home/alice/proj/source/sub/dir", Some(3), head, true, false), "@proj:dev");
    assert_eq!(handle("/home/alice/proj/source/sub/dir", Some(3), head, false, true), "s/sub/dir");
    assert_eq!(handle("/home/alice/proj/source/sub/dir", Some(3), head, true, true), "@proj:dev");
    assert_eq!(handle("/tmp/a/b/c", None, None, true, false), "");
}

#[test]
fn walk_and_shortening_work_together() {
    let path = "/home/alice/proj/sub/dir";
    let mut walk = AnchorWalk::new(path);
    let mut probed = Vec::new();
    while let Some(entry) = walk.probe() {
        let seen = if entry == "/home/alice/proj/.git" { GitEntry::Directory } else { GitEntry::Missing };
        probed.push(entry);
        walk.observe(&seen);
    }
    assert_eq!(
        probed,
        vec!["/home/alice/proj/sub/dir/.git", "/home/alice/proj/sub/.git", "/home/alice/proj/.git"]
    );
    let anchor = walk.anchor().expect("the repository is found");
    assert_eq!(anchor.depth, 3);
    assert_eq!(anchor.head, "/home/alice/proj/.git/HEAD");
    let short = shorten_path(path, Some(anchor.depth), Some("ref: refs/heads/dev\n"));
    assert_eq!(short.build(1, &[Prefix, Infix, Suffix]), "@proj:dev/sub/dir");
}

#[test]
fn dot_names_the_current_directory() {
    assert!(names_current_dir("."));
    assert!(!names_current_dir(""));
    assert!(!names_current_dir(".."));
    assert!(!names_current_dir("./"));
    assert_eq!(expand_path(".", Some("/home/alice".to_string())), "/home/alice");
    assert_eq!(expand_path(".", None), ".");
    assert_eq!(expand_path("/tmp/a", Some("/home/alice".to_string())), "/tmp/a");
    assert_eq!(expand_path("sub", Some("/home/alice".to_string())), "sub");
    assert_eq!(expand_path("sub", None), "sub");
}
