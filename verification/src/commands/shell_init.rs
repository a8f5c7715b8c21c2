//! The `shell-init` command: the code that a shell loads to integrate the
//! program.
//!
//! The command may be asked to check the installed version against a
//! requirement first. The requirement is given in words, or as the path of
//! a manifest that holds the version to require. Looking at the file system
//! is the caller's part: [`handle`] says what to do next, and takes what
//! came of it as an [`InitEvent`].

use crate::path::{components_of, split_components};
use crate::text::{
    find_char, has_prefix_at, is_word_at, lemma_position_of_bounds, push_char, to_chars,
};
use vstd::prelude::*;

verus! {

/// A version of `semver`, carried from the parser to the comparison
/// without a look inside.
#[verifier::external_type_specification]
#[verifier::external_body]
pub struct ExVersion(semver::Version);

/// A version requirement of `semver`, carried from the parser to the
/// comparison without a look inside.
#[verifier::external_type_specification]
#[verifier::external_body]
pub struct ExVersionReq(semver::VersionReq);

/// The error of `semver`'s parsers. It only tells that parsing failed.
#[verifier::external_type_specification]
#[verifier::external_body]
pub struct ExVersionError(semver::Error);

/// The version that the text denotes, or `None` where it denotes none.
pub uninterp spec fn parsed_version(text: Seq<char>) -> Option<semver::Version>;

/// The version requirement that the text denotes, or `None` where it
/// denotes none.
pub uninterp spec fn parsed_requirement(text: Seq<char>) -> Option<semver::VersionReq>;

/// Whether the version meets the requirement.
pub uninterp spec fn requirement_admits(requirement: semver::VersionReq, version: semver::Version) -> bool;

/// Parses a version (`semver::Version::parse`). The outcome is determined
/// by the text.
#[verifier::external_body]
fn parse_version(text: &str) -> (version: Result<semver::Version, semver::Error>)
    ensures
        match version {
            Ok(v) => parsed_version(text@) == Some(v),
            Err(_) => parsed_version(text@) is None,
        },
{
    semver::Version::parse(text)
}

/// Parses a version requirement (`semver::VersionReq::parse`). The outcome
/// is determined by the text.
#[verifier::external_body]
fn parse_requirement(text: &str) -> (requirement: Result<semver::VersionReq, semver::Error>)
    ensures
        match requirement {
            Ok(r) => parsed_requirement(text@) == Some(r),
            Err(_) => parsed_requirement(text@) is None,
        },
{
    semver::VersionReq::parse(text)
}

/// Whether the version meets the requirement (`semver::VersionReq::matches`).
/// The answer is determined by the two.
#[verifier::external_body]
fn requirement_matches(
    wanted: &semver::VersionReq,
    version: &semver::Version,
) -> (admitted: bool)
    ensures
        admitted == requirement_admits(*wanted, *version),
{
    wanted.matches(version)
}

/// The shells that the program integrates with.
#[derive(Clone, Copy, Debug, PartialEq, Eq, Structural)]
pub enum Shell {
    Fish,
    Zsh,
}

/// The arguments of the command.
#[derive(Debug)]
pub struct ShellInitArgs {
    /// The shell to generate code for.
    pub shell: Shell,
    /// The name of the navigate command.
    pub navigate: String,
    /// The name of the code command.
    pub code: String,
    /// The version to require: a requirement such as `^0.5.1`, or the path
    /// of a manifest.
    pub require_version: Option<String>,
}

/// The mathematical content of [`ShellInitArgs`].
pub struct ShellInitArgsView {
    pub shell: Shell,
    pub navigate: Seq<char>,
    pub code: Seq<char>,
    pub require_version: Option<Seq<char>>,
}

impl View for ShellInitArgs {
    type V = ShellInitArgsView;

    open spec fn view(&self) -> ShellInitArgsView {
        ShellInitArgsView {
            shell: self.shell,
            navigate: self.navigate@,
            code: self.code@,
            require_version: self.require_version.deep_view(),
        }
    }
}

/// The template of each shell's code.
#[derive(Debug)]
pub struct Templates {
    pub fish: String,
    pub zsh: String,
}

/// What the argument that requires a version stands for.
#[derive(Clone, Copy, Debug, PartialEq, Eq, Structural)]
pub enum VersionSource {
    /// The path of a manifest to read the version from.
    Manifest,
    /// A path that leads nowhere.
    Missing,
    /// The requirement itself.
    Literal,
}

/// What came of the step that the command asked for.
#[derive(Debug)]
pub enum InitEvent {
    /// Nothing yet.
    Start,
    /// Whether the path that requires a version exists.
    Probed(bool),
    /// The version that the manifest holds, or `None` where it could not
    /// be read.
    ManifestRead(Option<String>),
}

/// Why the command gives no code.
#[derive(Clone, Copy, Debug, PartialEq, Eq, Structural)]
pub enum InitError {
    /// The argument looks like a path, and nothing is there.
    VersionFileNotFound,
    /// The manifest could not be read.
    VersionFileUnreadable,
    /// The installed version does not meet the requirement.
    VersionMismatch,
}

/// What the command does next.
#[derive(Clone, Copy, Debug, PartialEq, Eq, Structural)]
pub enum InitAction {
    /// See whether the path that requires a version exists.
    Probe,
    /// Read the version that the manifest at that path holds.
    ReadManifest,
    /// Write the shell code.
    Write,
    /// Give up.
    Fail(InitError),
}

/// `text` with every occurrence of `from` replaced by `to`, taken from the
/// left and without overlap. An empty `from` occurs nowhere.
pub open spec fn replaced(text: Seq<char>, from: Seq<char>, to: Seq<char>) -> Seq<char>
    decreases text.len(),
{
    if from.len() == 0 || text.len() == 0 {
        text
    } else if from.is_prefix_of(text) {
        to + replaced(text.skip(from.len() as int), from, to)
    } else {
        seq![text[0]] + replaced(text.skip(1), from, to)
    }
}

/// The template with the three placeholders filled in.
pub open spec fn filled(
    template: Seq<char>,
    exe_path: Seq<char>,
    navigate: Seq<char>,
    code: Seq<char>,
) -> Seq<char> {
    replaced(
        replaced(replaced(template, "{{exe_path}}"@, exe_path), "{{navigate_cmd}}"@, navigate),
        "{{code_cmd}}"@,
        code,
    )
}

/// The template of the given shell.
pub open spec fn template_of(templates: Templates, shell: Shell) -> Seq<char> {
    match shell {
        Shell::Fish => templates.fish@,
        Shell::Zsh => templates.zsh@,
    }
}

/// The requirement that admits what is compatible with `version`.
pub open spec fn caret(version: Seq<char>) -> Seq<char> {
    seq!['^'] + version
}

/// The name of the file that the components lead to: the last component,
/// where components `.` at the end do not count.
pub open spec fn file_name_of(parts: Seq<Seq<char>>) -> Option<Seq<char>>
    decreases parts.len(),
{
    if parts.len() == 0 {
        None
    } else if parts.last() == "."@ {
        file_name_of(parts.drop_last())
    } else {
        Some(parts.last())
    }
}

/// Whether the path names a file with the extension `toml`: the name of
/// the file ends with `.toml` and has something before that.
pub open spec fn is_manifest_path(path: Seq<char>) -> bool {
    match file_name_of(components_of(path)) {
        Some(name) => name.len() > ".toml"@.len() && ".toml"@.is_suffix_of(name),
        None => false,
    }
}

/// Whether the text looks like a path: it holds a slash or a backslash.
pub open spec fn looks_like_path(text: Seq<char>) -> bool {
    text.contains('/') || text.contains('\\')
}

/// What the argument stands for, given whether it exists as a path.
pub open spec fn version_source_of(argument: Seq<char>, exists: bool) -> VersionSource {
    if exists && is_manifest_path(argument) {
        VersionSource::Manifest
    } else if looks_like_path(argument) {
        VersionSource::Missing
    } else {
        VersionSource::Literal
    }
}

/// Whether the installed version meets the requirement. A version or a
/// requirement that cannot be parsed is met by nothing.
pub open spec fn is_compatible(current_version: Seq<char>, require_version: Seq<char>) -> bool {
    match (parsed_version(current_version), parsed_requirement(require_version)) {
        (Some(version), Some(requirement)) => requirement_admits(requirement, version),
        _ => false,
    }
}

/// The message that tells a user why the command gives no code, for the
/// argument that required a version. An unreadable manifest has no message
/// of its own: the reader's error tells of it.
pub open spec fn failure_text(error: InitError, argument: Seq<char>) -> Option<Seq<char>> {
    match error {
        InitError::VersionFileNotFound => Some("Version file not found: "@ + argument),
        InitError::VersionFileUnreadable => None,
        InitError::VersionMismatch => Some("Version compatibility check failed"@),
    }
}

/// What follows a check of the version.
pub open spec fn verdict(compatible: bool) -> InitAction {
    if compatible {
        InitAction::Write
    } else {
        InitAction::Fail(InitError::VersionMismatch)
    }
}

/// The requirement that is checked when `event` arrives, if one is.
pub open spec fn requirement_at(
    require_version: Option<Seq<char>>,
    event: InitEvent,
) -> Option<Seq<char>> {
    match (require_version, event) {
        (Some(argument), InitEvent::Probed(exists)) => if version_source_of(argument, exists)
            is Literal {
            Some(argument)
        } else {
            None
        },
        (Some(_), InitEvent::ManifestRead(Some(version))) => Some(caret(version@)),
        _ => None,
    }
}

/// What the command does next. Without a required version it writes the
/// code at once. Else it first asks whether the argument exists as a path;
/// a manifest is read and requires what is compatible with its version,
/// anything else that looks like a path is an error, and the rest is the
/// requirement itself. The code is written where the installed version
/// meets the requirement.
pub open spec fn next_action(
    require_version: Option<Seq<char>>,
    event: InitEvent,
    current_version: Seq<char>,
) -> InitAction {
    match require_version {
        None => InitAction::Write,
        Some(argument) => match event {
            InitEvent::Start => InitAction::Probe,
            InitEvent::Probed(exists) => match version_source_of(argument, exists) {
                VersionSource::Manifest => InitAction::ReadManifest,
                VersionSource::Missing => InitAction::Fail(InitError::VersionFileNotFound),
                VersionSource::Literal => verdict(is_compatible(current_version, argument)),
            },
            InitEvent::ManifestRead(None) => InitAction::Fail(InitError::VersionFileUnreadable),
            InitEvent::ManifestRead(Some(version)) => verdict(
                is_compatible(current_version, caret(version@)),
            ),
        },
    }
}

impl ShellInitArgs {
    /// The arguments as given on the command line, with the defaults for
    /// what was not given: fish, `j` and `jc`.
    pub fn from_options(
        shell: Option<Shell>,
        navigate: Option<String>,
        code: Option<String>,
        require_version: Option<String>,
    ) -> (args: ShellInitArgs)
        ensures
            args@ == (ShellInitArgsView {
                shell: match shell {
                    Some(s) => s,
                    None => Shell::Fish,
                },
                navigate: match navigate {
                    Some(name) => name@,
                    None => "j"@,
                },
                code: match code {
                    Some(name) => name@,
                    None => "jc"@,
                },
                require_version: require_version.deep_view(),
            }),
    {
        ShellInitArgs {
            shell: match shell {
                Some(s) => s,
                None => Shell::Fish,
            },
            navigate: match navigate {
                Some(name) => name,
                None => "j".to_owned(),
            },
            code: match code {
                Some(name) => name,
                None => "jc".to_owned(),
            },
            require_version,
        }
    }
}

/// Replaces every occurrence of `from` in `text` by `to`.
pub fn replace_all(text: &str, from: &str, to: &str) -> (out: String)
    ensures
        out@ == replaced(text@, from@, to@),
{
    let chars = to_chars(text);
    let pattern = to_chars(from);
    if pattern.len() == 0 {
        return text.to_owned();
    }
    let len = chars.len();
    let mut out = String::new();
    let mut i: usize = 0;
    assert(chars@.skip(0) =~= text@);
    while i < len
        invariant
            i <= len == chars.len(),
            pattern@ == from@,
            pattern@.len() > 0,
            replaced(text@, from@, to@) == out@ + replaced(chars@.skip(i as int), from@, to@),
        decreases len - i,
    {
        let ghost rest = chars@.skip(i as int);
        if has_prefix_at(&chars, i, len, &pattern) {
            out.append(to);
            assert(rest.skip(pattern@.len() as int) =~= chars@.skip(i + pattern@.len()));
            i += pattern.len();
        } else {
            push_char(&mut out, chars[i]);
            assert(rest.skip(1) =~= chars@.skip(i + 1));
            i += 1;
        }
    }
    out
}

/// The path of the running program for the shell code: the one that was
/// found, or the program's name.
pub fn get_exe_path(current_exe: Option<String>) -> (path: String)
    ensures
        path@ == (match current_exe {
            Some(found) => found@,
            None => "jumpr"@,
        }),
{
    match current_exe {
        Some(found) => found,
        None => "jumpr".to_owned(),
    }
}

/// The code that the shell loads: the template of the shell in `args`,
/// with the path of the program and the names of the two commands in place
/// of their placeholders.
pub fn generate_shell_code(
    args: &ShellInitArgs,
    templates: &Templates,
    exe_path: &str,
) -> (code: String)
    ensures
        code@ == filled(template_of(*templates, args.shell), exe_path@, args.navigate@, args.code@),
{
    let template = match args.shell {
        Shell::Fish => templates.fish.as_str(),
        Shell::Zsh => templates.zsh.as_str(),
    };
    let first = replace_all(template, "{{exe_path}}", exe_path);
    let second = replace_all(first.as_str(), "{{navigate_cmd}}", args.navigate.as_str());
    replace_all(second.as_str(), "{{code_cmd}}", args.code.as_str())
}

/// The requirement that admits what is compatible with the version that a
/// manifest holds.
pub fn caret_requirement(version: &str) -> (requirement: String)
    ensures
        requirement@ == caret(version@),
{
    let mut requirement = String::new();
    push_char(&mut requirement, '^');
    requirement.append(version);
    requirement
}

/// Whether the path names a file with the extension `toml`.
pub fn has_manifest_extension(path: &str) -> (b: bool)
    ensures
        b == is_manifest_path(path@),
{
    let parts = split_components(path);
    let suffix = to_chars(".toml");
    let mut n: usize = parts.len();
    assert(parts.deep_view().take(n as int) =~= parts.deep_view());
    while n > 0
        invariant
            n <= parts.len(),
            parts.deep_view() == components_of(path@),
            suffix@ == ".toml"@,
            file_name_of(components_of(path@)) == file_name_of(parts.deep_view().take(n as int)),
        decreases n,
    {
        let name = to_chars(parts[n - 1].as_str());
        let ghost now = parts.deep_view().take(n as int);
        assert(now.last() == name@);
        assert(now.drop_last() =~= parts.deep_view().take(n - 1));
        assert(name@.subrange(0, name.len() as int) =~= name@);
        if !is_word_at(&name, 0, name.len(), ".") {
            if name.len() <= suffix.len() {
                return false;
            }
            return has_prefix_at(&name, name.len() - suffix.len(), name.len(), &suffix);
        }
        n -= 1;
    }
    false
}

/// What the argument that requires a version stands for, given whether it
/// exists as a path.
pub fn version_source(argument: &str, exists: bool) -> (source: VersionSource)
    ensures
        source == version_source_of(argument@, exists),
{
    if exists && has_manifest_extension(argument) {
        return VersionSource::Manifest;
    }
    let chars = to_chars(argument);
    let slash = find_char(&chars, 0, chars.len(), '/');
    let backslash = find_char(&chars, 0, chars.len(), '\\');
    proof {
        assert(chars@.subrange(0, chars.len() as int) =~= chars@);
        lemma_position_of_bounds(chars@, '/');
        lemma_position_of_bounds(chars@, '\\');
    }
    if slash < chars.len() || backslash < chars.len() {
        VersionSource::Missing
    } else {
        VersionSource::Literal
    }
}

/// Whether the installed version meets the requirement.
pub fn check_version_compatibility(
    current_version: &str,
    require_version: &str,
) -> (compatible: bool)
    ensures
        compatible == is_compatible(current_version@, require_version@),
{
    let version = match parse_version(current_version) {
        Ok(version) => version,
        Err(_) => {
            return false;
        },
    };
    let requirement = match parse_requirement(require_version) {
        Ok(requirement) => requirement,
        Err(_) => {
            return false;
        },
    };
    requirement_matches(&requirement, &version)
}

/// What follows a check of the version: the code is written where the
/// installed version is compatible, and the command fails where it is not.
pub fn conclude(compatible: bool) -> (action: InitAction)
    ensures
        action == verdict(compatible),
{
    if compatible {
        InitAction::Write
    } else {
        InitAction::Fail(InitError::VersionMismatch)
    }
}

/// The message that tells a user why the command gives no code.
pub fn failure_message(error: InitError, argument: &str) -> (message: Option<String>)
    ensures
        message.deep_view() == failure_text(error, argument@),
{
    match error {
        InitError::VersionFileNotFound => {
            let mut message = "Version file not found: ".to_owned();
            message.append(argument);
            Some(message)
        },
        InitError::VersionFileUnreadable => None,
        InitError::VersionMismatch => Some("Version compatibility check failed".to_owned()),
    }
}

/// The requirement that is checked when `event` arrives, if one is.
pub fn requirement(args: &ShellInitArgs, event: &InitEvent) -> (required: Option<String>)
    ensures
        required.deep_view() == requirement_at(args@.require_version, *event),
{
    match &args.require_version {
        None => None,
        Some(argument) => match event {
            InitEvent::Probed(exists) => match version_source(argument.as_str(), *exists) {
                VersionSource::Literal => Some(argument.clone()),
                _ => None,
            },
            InitEvent::ManifestRead(Some(version)) => Some(caret_requirement(version.as_str())),
            _ => None,
        },
    }
}

/// Decides what the command does next, for the installed version
/// `current_version`.
pub fn handle(
    args: &ShellInitArgs,
    event: &InitEvent,
    current_version: &str,
) -> (action: InitAction)
    ensures
        action == next_action(args@.require_version, *event, current_version@),
{
    match &args.require_version {
        None => InitAction::Write,
        Some(argument) => match event {
            InitEvent::Start => InitAction::Probe,
            InitEvent::Probed(exists) => match version_source(argument.as_str(), *exists) {
                VersionSource::Manifest => InitAction::ReadManifest,
                VersionSource::Missing => InitAction::Fail(InitError::VersionFileNotFound),
                VersionSource::Literal => conclude(
                    check_version_compatibility(current_version, argument.as_str()),
                ),
            },
            InitEvent::ManifestRead(None) => InitAction::Fail(InitError::VersionFileUnreadable),
            InitEvent::ManifestRead(Some(version)) => {
                let required = caret_requirement(version.as_str());
                conclude(check_version_compatibility(current_version, required.as_str()))
            },
        },
    }
}

} // verus!
