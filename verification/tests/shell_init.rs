use jumpr::commands::shell_init::{
    failure_message, caret_requirement, check_version_compatibility, conclude, generate_shell_code, get_exe_path, handle,
    has_manifest_extension, replace_all, requirement, version_source, InitAction, InitError, InitEvent, Shell,
    ShellInitArgs, Templates, VersionSource,
};

fn args(require_version: Option<&str>) -> ShellInitArgs {
    ShellInitArgs::from_options(None, None, None, require_version.map(String::from))
}

fn templates() -> Templates {
    Templates {
        fish: "function {{navigate_cmd}}\n  cd ({{exe_path}} go $argv)\nend\nfunction {{code_cmd}}\n  code ({{exe_path}} go $argv)\nend\n"
            .to_string(),
        zsh: "{{navigate_cmd}}() { cd \"$({{exe_path}} go \"$@\")\" }\n{{code_cmd}}() { code \"$({{exe_path}} go \"$@\")\" }\n"
            .to_string(),
    }
}

#[test]
fn arguments_default_to_fish_j_and_jc() {
    let args = ShellInitArgs::from_options(None, None, None, None);
    assert_eq!(args.shell, Shell::Fish);
    assert_eq!(args.navigate, "j");
    assert_eq!(args.code, "jc");
    assert_eq!(args.require_version, None);
    let args = ShellInitArgs::from_options(
        Some(Shell::Zsh),
        Some("nav".to_string()),
        Some("ed".to_string()),
        Some("^1".to_string()),
    );
    assert_eq!(args.shell, Shell::Zsh);
    assert_eq!(args.navigate, "nav");
    assert_eq!(args.code, "ed");
    assert_eq!(args.require_version.as_deref(), Some("^1"));
}

#[test]
fn replace_all_replaces_every_occurrence() {
    assert_eq!(replace_all("a{{x}}b{{x}}", "{{x}}", "12"), "a12b12");
    assert_eq!(replace_all("aaa", "aa", "b"), "ba");
    assert_eq!(replace_all("abc", "abc", ""), "");
    assert_eq!(replace_all("abc", "x", "y"), "abc");
    assert_eq!(replace_all("", "x", "y"), "");
    assert_eq!(replace_all("xx", "x", "xx"), "xxxx");
    assert_eq!(replace_all("abc", "", "-"), "abc");
    for (text, from, to) in [("a{{x}}b{{x}}", "{{x}}", "12"), ("aaaa", "aa", "b"), ("ababab", "aba", "é"), ("{{{{x}}", "{{x}}", "{")] {
        assert_eq!(replace_all(text, from, to), text.replace(from, to));
    }
}

#[test]
fn shell_code_fills_the_template_of_the_shell() {
    let fish = generate_shell_code(&args(None), &templates(), "/usr/bin/jumpr");
    assert_eq!(
        fish,
        "function j\n  cd (/usr/bin/jumpr go $argv)\nend\nfunction jc\n  code (/usr/bin/jumpr go $argv)\nend\n"
    );
    let zsh_args = ShellInitArgs::from_options(Some(Shell::Zsh), Some("n".to_string()), Some("c".to_string()), None);
    let zsh = generate_shell_code(&zsh_args, &templates(), "jumpr");
    assert_eq!(zsh, "n() { cd \"$(jumpr go \"$@\")\" }\nc() { code \"$(jumpr go \"$@\")\" }\n");
}

#[test]
fn placeholders_are_filled_in_order() {
    let templates = Templates { fish: "{{exe_path}}|{{navigate_cmd}}|{{code_cmd}}".to_string(), zsh: String::new() };
    let args = ShellInitArgs::from_options(None, Some("{{code_cmd}}".to_string()), Some("c".to_string()), None);
    assert_eq!(generate_shell_code(&args, &templates, "{{navigate_cmd}}"), "c|c|c");
}

#[test]
fn exe_path_falls_back_to_the_programs_name() {
    assert_eq!(get_exe_path(Some("/opt/bin/jumpr".to_string())), "/opt/bin/jumpr");
    assert_eq!(get_exe_path(None), "jumpr");
}

#[test]
fn caret_requirement_prefixes_the_version() {
    assert_eq!(caret_requirement("0.5.1"), "^0.5.1");
    assert_eq!(caret_requirement(""), "^");
}

#[test]
fn manifest_paths_end_with_the_toml_extension() {
    assert!(has_manifest_extension("Cargo.toml"));
    assert!(has_manifest_extension("/a/b/Cargo.toml"));
    assert!(has_manifest_extension("a.b.toml"));
    assert!(has_manifest_extension("Cargo.toml/"));
    assert!(!has_manifest_extension(".toml"));
    assert!(!has_manifest_extension("/a/.toml"));
    assert!(!has_manifest_extension("Cargo.tom"));
    assert!(!has_manifest_extension("Cargo.toml.bak"));
    assert!(!has_manifest_extension("toml"));
    assert!(!has_manifest_extension("Cargo.TOML"));
    assert!(!has_manifest_extension(""));
    assert!(!has_manifest_extension("/"));
    assert!(has_manifest_extension("x.toml/."));
    assert!(!has_manifest_extension("x.toml/.."));
    for path in [
        "Cargo.toml", "/a/b/Cargo.toml", "a.b.toml", ".toml", "/a/.toml", "x.toml.bak", "toml", "..toml", "a/",
        "x.toml/.", "x.toml/./", "x.toml/..", "./x.toml", ".", "..", "", "/", "a/./b.toml", "x.toml//", ".x.toml",
    ] {
        let expected = std::path::Path::new(path).extension().is_some_and(|ext| ext == "toml");
        assert_eq!(has_manifest_extension(path), expected, "{path}");
    }
}

#[test]
fn version_argument_is_a_manifest_a_missing_path_or_a_requirement() {
    assert_eq!(version_source("Cargo.toml", true), VersionSource::Manifest);
    assert_eq!(version_source("../Cargo.toml", true), VersionSource::Manifest);
    assert_eq!(version_source("../Cargo.toml", false), VersionSource::Missing);
    assert_eq!(version_source("Cargo.toml", false), VersionSource::Literal);
    assert_eq!(version_source("dir/file", true), VersionSource::Missing);
    assert_eq!(version_source("dir\\file", false), VersionSource::Missing);
    assert_eq!(version_source("^0.5.1", false), VersionSource::Literal);
    assert_eq!(version_source("^0.5.1", true), VersionSource::Literal);
    assert_eq!(version_source("", false), VersionSource::Literal);
}

#[test]
fn version_compatibility_follows_semver() {
    assert!(check_version_compatibility("0.5.3", "^0.5.1"));
    assert!(check_version_compatibility("0.5.1", "^0.5.1"));
    assert!(!check_version_compatibility("0.5.0", "^0.5.1"));
    assert!(!check_version_compatibility("0.6.0", "^0.5.1"));
    assert!(check_version_compatibility("1.4.0", ">=1.2, <2"));
    assert!(!check_version_compatibility("2.0.0", ">=1.2, <2"));
    assert!(check_version_compatibility("1.0.0", "*"));
    assert!(check_version_compatibility("0.5.1", "0.5.1"));
    assert!(!check_version_compatibility("^0.5.1", "0.5.1"));
}

#[test]
fn unparsable_versions_are_not_compatible() {
    assert!(!check_version_compatibility("0.5", "^0.5.1"));
    assert!(!check_version_compatibility("", "*"));
    assert!(!check_version_compatibility("0.5.1", "not a version"));
    assert!(!check_version_compatibility("0.5.1", ""));
    assert!(!check_version_compatibility("x", "y"));
}

#[test]
fn conclusion_of_a_version_check() {
    assert_eq!(conclude(true), InitAction::Write);
    assert_eq!(conclude(false), InitAction::Fail(InitError::VersionMismatch));
}

#[test]
fn without_required_version_the_code_is_written_at_once() {
    assert_eq!(handle(&args(None), &InitEvent::Start, "0.5.1"), InitAction::Write);
    assert_eq!(handle(&args(None), &InitEvent::Probed(true), "0.5.1"), InitAction::Write);
    assert_eq!(handle(&args(None), &InitEvent::Start, "nonsense"), InitAction::Write);
    assert_eq!(requirement(&args(None), &InitEvent::Probed(false)), None);
}

#[test]
fn required_version_is_probed_first() {
    assert_eq!(handle(&args(Some("^0.5.1")), &InitEvent::Start, "0.5.1"), InitAction::Probe);
    assert_eq!(handle(&args(Some("Cargo.toml")), &InitEvent::Start, "0.5.1"), InitAction::Probe);
    assert_eq!(requirement(&args(Some("^0.5.1")), &InitEvent::Start), None);
}

#[test]
fn literal_requirement_is_checked_against_the_installed_version() {
    let literal = args(Some("^0.5.1"));
    assert_eq!(handle(&literal, &InitEvent::Probed(false), "0.5.2"), InitAction::Write);
    assert_eq!(handle(&literal, &InitEvent::Probed(true), "0.5.2"), InitAction::Write);
    assert_eq!(
        handle(&literal, &InitEvent::Probed(false), "0.4.9"),
        InitAction::Fail(InitError::VersionMismatch)
    );
    assert_eq!(
        handle(&args(Some("nonsense")), &InitEvent::Probed(false), "0.5.2"),
        InitAction::Fail(InitError::VersionMismatch)
    );
    assert_eq!(requirement(&literal, &InitEvent::Probed(false)), Some("^0.5.1".to_string()));
}

#[test]
fn manifest_is_read_and_requires_a_compatible_version() {
    let manifest = args(Some("../Cargo.toml"));
    assert_eq!(handle(&manifest, &InitEvent::Probed(true), "0.5.2"), InitAction::ReadManifest);
    assert_eq!(requirement(&manifest, &InitEvent::Probed(true)), None);
    let read = InitEvent::ManifestRead(Some("0.5.1".to_string()));
    assert_eq!(handle(&manifest, &read, "0.5.2"), InitAction::Write);
    assert_eq!(handle(&manifest, &read, "0.6.0"), InitAction::Fail(InitError::VersionMismatch));
    assert_eq!(requirement(&manifest, &read), Some("^0.5.1".to_string()));
    assert_eq!(
        handle(&manifest, &InitEvent::ManifestRead(None), "0.5.2"),
        InitAction::Fail(InitError::VersionFileUnreadable)
    );
    assert_eq!(requirement(&manifest, &InitEvent::ManifestRead(None)), None);
}

#[test]
fn missing_version_file_is_an_error() {
    assert_eq!(
        handle(&args(Some("../Cargo.toml")), &InitEvent::Probed(false), "0.5.2"),
        InitAction::Fail(InitError::VersionFileNotFound)
    );
    assert_eq!(
        handle(&args(Some("some/dir")), &InitEvent::Probed(true), "0.5.2"),
        InitAction::Fail(InitError::VersionFileNotFound)
    );
    assert_eq!(requirement(&args(Some("some/dir")), &InitEvent::Probed(true)), None);
}

#[test]
fn failures_have_messages() {
    assert_eq!(
        failure_message(InitError::VersionFileNotFound, "../Cargo.toml"),
        Some("Version file not found: ../Cargo.toml".to_string())
    );
    assert_eq!(
        failure_message(InitError::VersionMismatch, "^0.5.1"),
        Some("Version compatibility check failed".to_string())
    );
    assert_eq!(failure_message(InitError::VersionFileUnreadable, "Cargo.toml"), None);
}
