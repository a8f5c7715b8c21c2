use jumpr::utils::{can_expand, expand_path, expand_path_in};
use std::path::PathBuf;

#[test]
fn test_expand_path_with_home() {
    let Some(home_dir) = dirs::home_dir() else {
        println!("WARNING: Home directory not found, skipping test");
        return;
    };

    // Test expanding ~
    let expanded = expand_path("~/test");
    assert_eq!(PathBuf::from(expanded), home_dir.join("test"));

    // Test expanding ~/sub/path
    let expanded = expand_path("~/sub/path");
    assert_eq!(PathBuf::from(expanded), home_dir.join("sub/path"));
}

#[test]
fn test_expand_path_without_home() {
    // Test regular path
    let expanded = expand_path("/absolute/path");
    assert_eq!(PathBuf::from(expanded), PathBuf::from("/absolute/path"));

    // Test relative path
    let expanded = expand_path("relative/path");
    assert_eq!(PathBuf::from(expanded), PathBuf::from("relative/path"));
}

#[test]
fn expansion_against_a_given_home() {
    assert_eq!(expand_path_in("~/test", Some("/home/alice")), "/home/alice/test");
    assert_eq!(expand_path_in("~/sub/path", Some("/home/alice/")), "/home/alice/sub/path");
    assert_eq!(expand_path_in("~/", Some("/home/alice")), "/home/alice/");
    assert_eq!(expand_path_in("~/.config", Some("/")), "/.config");
    assert_eq!(expand_path_in("~/test", None), "~/test");
    assert_eq!(expand_path_in("/absolute/path", Some("/home/alice")), "/absolute/path");
    assert_eq!(expand_path_in("relative/~", Some("/home/alice")), "relative/~");
    assert_eq!(expand_path_in("", Some("/home/alice")), "");
}

#[test]
fn expansion_without_home_takes_every_path() {
    assert_eq!(expand_path_in("~", None), "~");
    assert_eq!(expand_path_in("~é/x", None), "~é/x");
    assert_eq!(expand_path_in("~/x", None), "~/x");
    assert_eq!(expand_path_in("", None), "");
}

#[test]
fn expansion_drops_the_character_after_the_mark() {
    assert_eq!(expand_path_in("~bob/x", Some("/home/alice")), "/home/alice/ob/x");
    assert_eq!(expand_path_in("~//etc", Some("/home/alice")), "/etc");
}

#[test]
fn expansion_leaves_other_paths_alone() {
    assert_eq!(expand_path(""), "");
    assert_eq!(expand_path("a/~/b"), "a/~/b");
}

#[test]
fn expandable_paths_have_an_ascii_character_after_the_mark() {
    assert!(can_expand("~/test"));
    assert!(can_expand("~x"));
    assert!(can_expand(""));
    assert!(can_expand("/absolute/path"));
    assert!(can_expand("é~"));
    assert!(!can_expand("~"));
    assert!(!can_expand("~é/x"));
    for path in ["~/test", "~x", "", "a", "~", "~é/x", "~\u{7f}", "~\u{80}"] {
        assert_eq!(can_expand(path), !path.starts_with('~') || (path.len() >= 2 && path.is_char_boundary(2)));
    }
}
