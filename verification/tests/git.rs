use jumpr::git::{parse_gitdir, resolve_head, AnchorWalk, GitEntry};
use jumpr::utils::get_repository_branch;

fn run(path: &str, world: &[(&str, GitEntry)]) -> (Vec<String>, Option<(usize, String)>) {
    let mut walk = AnchorWalk::new(path);
    let mut probed = Vec::new();
    while let Some(entry) = walk.probe() {
        let missing = GitEntry::Missing;
        let seen = world.iter().find(|(at, _)| *at == entry).map(|(_, seen)| seen).unwrap_or(&missing);
        walk.observe(seen);
        probed.push(entry);
        assert!(probed.len() < 100);
    }
    assert!(walk.is_finished());
    (probed, walk.anchor().map(|anchor| (anchor.depth, anchor.head.clone())))
}

#[test]
fn test_repository_branch_detection() {
    let (_, anchor) = run("/non/existent/path", &[]);
    assert_eq!(anchor, None);
    assert_eq!(get_repository_branch("ref: refs/heads/master\n"), None);
    assert_eq!(get_repository_branch("ref: refs/heads/main\n"), None);
    if let Some(branch) = get_repository_branch("ref: refs/heads/mainline\n") {
        assert_ne!(branch, "master");
        assert_ne!(branch, "main");
    }
}

#[test]
fn walk_without_git_entries_asks_every_ancestor() {
    let (probed, anchor) = run("/tmp/a/b/c", &[]);
    assert_eq!(probed, vec!["/tmp/a/b/c/.git", "/tmp/a/b/.git", "/tmp/a/.git", "/tmp/.git", "/.git"]);
    assert_eq!(anchor, None);
}

#[test]
fn walk_stops_at_the_nearest_repository() {
    let world = [("/home/alice/.git", GitEntry::Directory), ("/home/alice/proj/.git", GitEntry::Directory)];
    let (probed, anchor) = run("/home/alice/proj/sub", &world);
    assert_eq!(probed, vec!["/home/alice/proj/sub/.git", "/home/alice/proj/.git"]);
    assert_eq!(anchor, Some((3, "/home/alice/proj/.git/HEAD".to_string())));
}

#[test]
fn walk_finds_a_repository_at_the_start() {
    let world = [("/home/alice/proj/.git", GitEntry::Directory)];
    let (probed, anchor) = run("/home/alice/proj", &world);
    assert_eq!(probed, vec!["/home/alice/proj/.git"]);
    assert_eq!(anchor, Some((3, "/home/alice/proj/.git/HEAD".to_string())));
}

#[test]
fn walk_finds_a_repository_at_the_root() {
    let world = [("/.git", GitEntry::Directory)];
    let (_, anchor) = run("/a", &world);
    assert_eq!(anchor, Some((0, "/.git/HEAD".to_string())));
}

#[test]
fn walk_over_a_relative_path_ends_at_the_empty_directory() {
    let (probed, anchor) = run("a/b", &[]);
    assert_eq!(probed, vec!["a/b/.git", "a/.git", ".git"]);
    assert_eq!(anchor, None);
}

#[test]
fn walk_over_the_root_asks_once() {
    let (probed, anchor) = run("/", &[]);
    assert_eq!(probed, vec!["/.git"]);
    assert_eq!(anchor, None);
}

#[test]
fn worktree_pointer_resolves_relative_to_its_directory() {
    let pointer = || GitEntry::File("gitdir: ../.git/worktrees/feature\n".to_string());
    let world = [("/w/wt/.git", pointer()), ("/w/.git", GitEntry::Directory)];
    let (probed, anchor) = run("/w/wt", &world);
    assert_eq!(probed, vec!["/w/wt/.git"]);
    assert_eq!(anchor, Some((2, "/w/.git/worktrees/feature/HEAD".to_string())));
    let (probed, anchor) = run("/w/wt/src/deep", &world);
    assert_eq!(probed, vec!["/w/wt/src/deep/.git", "/w/wt/src/.git", "/w/wt/.git"]);
    assert_eq!(anchor, Some((2, "/w/.git/worktrees/feature/HEAD".to_string())));
    assert_eq!(resolve_head("/w/wt", &pointer()), Some("/w/.git/worktrees/feature/HEAD".to_string()));
}

#[test]
fn worktree_head_location_is_normalized() {
    let head = |dir: &str, gitdir: &str| resolve_head(dir, &GitEntry::File(format!("gitdir: {gitdir}\n")));
    assert_eq!(head("/w/wt", "./git/./x"), Some("/w/wt/git/x/HEAD".to_string()));
    assert_eq!(head("/w/wt", "../../../x"), Some("/x/HEAD".to_string()));
    assert_eq!(head("/w/wt", "/a/b/../c//d/"), Some("/a/c/d/HEAD".to_string()));
    assert_eq!(head("/w/wt", "/.."), Some("/HEAD".to_string()));
    assert_eq!(head("w/wt", "../../../x"), Some("../x/HEAD".to_string()));
    assert_eq!(head("", "../x"), Some("../x/HEAD".to_string()));
    assert_eq!(head("w", ".."), Some("HEAD".to_string()));
}

#[test]
fn worktree_pointer_with_absolute_gitdir() {
    let pointer = GitEntry::File("gitdir: /repo/.git/worktrees/wt\n".to_string());
    assert_eq!(resolve_head("/w/feature", &pointer), Some("/repo/.git/worktrees/wt/HEAD".to_string()));
}

#[test]
fn malformed_worktree_pointer_ends_the_walk_without_anchor() {
    let world = [
        ("/w/feature/.git", GitEntry::File("nothing here\n".to_string())),
        ("/w/.git", GitEntry::Directory),
    ];
    let (probed, anchor) = run("/w/feature/src", &world);
    assert_eq!(probed, vec!["/w/feature/src/.git", "/w/feature/.git"]);
    assert_eq!(anchor, None);
}

#[test]
fn unreadable_worktree_pointer_ends_the_walk_without_anchor() {
    let world = [("/w/feature/.git", GitEntry::Unreadable), ("/w/.git", GitEntry::Directory)];
    let (probed, anchor) = run("/w/feature", &world);
    assert_eq!(probed, vec!["/w/feature/.git"]);
    assert_eq!(anchor, None);
}

#[test]
fn observing_after_the_end_changes_nothing() {
    let mut walk = AnchorWalk::new("/a");
    walk.observe(&GitEntry::Directory);
    assert!(walk.is_finished());
    assert_eq!(walk.probe(), None);
    walk.observe(&GitEntry::Missing);
    walk.observe(&GitEntry::Unreadable);
    assert_eq!(walk.anchor().map(|anchor| anchor.depth), Some(1));
    assert_eq!(walk.anchor().map(|anchor| anchor.head.as_str()), Some("/a/.git/HEAD"));
}

#[test]
fn resolve_head_by_entry() {
    assert_eq!(resolve_head("/a/b", &GitEntry::Directory), Some("/a/b/.git/HEAD".to_string()));
    assert_eq!(resolve_head("/", &GitEntry::Directory), Some("/.git/HEAD".to_string()));
    assert_eq!(resolve_head("", &GitEntry::Directory), Some(".git/HEAD".to_string()));
    assert_eq!(resolve_head("/a/b", &GitEntry::Missing), None);
    assert_eq!(resolve_head("/a/b", &GitEntry::Unreadable), None);
    assert_eq!(resolve_head("/a/b", &GitEntry::File(String::new())), None);
    assert_eq!(
        resolve_head("/a/b", &GitEntry::File("gitdir:".to_string())),
        Some("/a/b/HEAD".to_string())
    );
}

#[test]
fn gitdir_is_read_from_the_first_matching_line() {
    assert_eq!(parse_gitdir("gitdir: /x/y"), Some("/x/y".to_string()));
    assert_eq!(parse_gitdir("gitdir:/x/y\n"), Some("/x/y".to_string()));
    assert_eq!(parse_gitdir("  gitdir:   ../z  \r\n"), Some("../z".to_string()));
    assert_eq!(parse_gitdir("# note\n\n\tgitdir: one\ngitdir: two\n"), Some("one".to_string()));
    assert_eq!(parse_gitdir("gitdir: a b\n"), Some("a b".to_string()));
    assert_eq!(parse_gitdir("gitdir:"), Some(String::new()));
    assert_eq!(parse_gitdir("gitdir :x"), None);
    assert_eq!(parse_gitdir("Gitdir: x"), None);
    assert_eq!(parse_gitdir("x gitdir: y"), None);
    assert_eq!(parse_gitdir(""), None);
    assert_eq!(parse_gitdir("\n\n"), None);
}

#[test]
fn gitdir_agrees_with_line_by_line_reading() {
    for contents in ["gitdir: a\n", "x\r\ngitdir: b\r\n", "x\ny\n", "gitdir: c", " \u{a0}gitdir:\u{2003}d\u{3000}\n", "a\rgitdir: e\n"] {
        let expected = contents
            .lines()
            .find_map(|line| line.trim().strip_prefix("gitdir:"))
            .map(|value| value.trim().to_string());
        assert_eq!(parse_gitdir(contents), expected);
    }
}

#[test]
fn branch_is_read_from_head() {
    assert_eq!(get_repository_branch("ref: refs/heads/dev\n"), Some("dev".to_string()));
    assert_eq!(get_repository_branch("ref: refs/heads/feature/x"), Some("feature/x".to_string()));
    assert_eq!(get_repository_branch("\n  ref: refs/heads/  topic \n"), Some("topic".to_string()));
    assert_eq!(get_repository_branch("ref: refs/heads/Main"), Some("Main".to_string()));
    assert_eq!(get_repository_branch("ref: refs/heads/mastery"), Some("mastery".to_string()));
    assert_eq!(get_repository_branch("ref: refs/heads/main"), None);
    assert_eq!(get_repository_branch("ref: refs/heads/master"), None);
    assert_eq!(get_repository_branch("ref: refs/heads/"), None);
    assert_eq!(get_repository_branch("ref: refs/heads/   \n"), None);
    assert_eq!(get_repository_branch("ref: refs/tags/v1"), None);
    assert_eq!(get_repository_branch("4b825dc642cb6eb9a060e54bf8d69288fbee4904\n"), None);
    assert_eq!(get_repository_branch(""), None);
    assert_eq!(get_repository_branch("x ref: refs/heads/dev"), None);
}
