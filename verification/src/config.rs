//! The configuration: its defaults, and what a configuration file changes
//! in them.
//!
//! A configuration file is a JSON document. Loading starts from the
//! defaults, reads the document as a set of named members, and takes over
//! the members that are given. A member that is absent or `null` keeps the
//! default.

use crate::path::{join_path, joined_path};
use crate::text::{to_chars, trim_range, trimmed};
use crate::utils::{expand_path_in, expanded, home_dir};
use vstd::prelude::*;

verus! {

/// A JSON value of `serde_json`, as a value whose inside is not looked
/// at: what it holds is known through [`item_of`] and [`members_of`] alone.
#[verifier::external_type_specification]
#[verifier::external_body]
pub struct ExJsonValue(serde_json::Value);

/// The error of `serde_json`, carried from the parser to its message.
#[verifier::external_type_specification]
#[verifier::external_body]
pub struct ExJsonError(serde_json::Error);

/// What stands for a JSON value in the contracts: the kinds that a
/// configuration reads, each with its content.
pub enum JsonItem {
    /// `null`.
    Null,
    /// A string.
    Text(Seq<char>),
    /// A number that is an integer from 0 to `u64::MAX`.
    Count(u64),
    /// An array.
    List(Seq<JsonItem>),
    /// Anything else: a boolean, another number, an object.
    Other,
}

/// What the JSON value holds.
pub uninterp spec fn item_of(value: serde_json::Value) -> JsonItem;

/// The members of the JSON value, by their keys, where it is an object; no
/// members where it is anything else.
pub uninterp spec fn members_of(value: serde_json::Value) -> Map<Seq<char>, JsonItem>;

/// The members of the JSON document that the text holds, or, where the
/// text is no JSON document, the message that tells why.
pub uninterp spec fn parsed_members(text: Seq<char>) -> Result<Map<Seq<char>, JsonItem>, Seq<char>>;

/// The message that the error displays.
pub uninterp spec fn message_of(error: serde_json::Error) -> Seq<char>;

/// The elements of the array that `item` is; none where it is no array.
pub open spec fn elements_of(item: JsonItem) -> Seq<JsonItem> {
    match item {
        JsonItem::List(items) => items,
        _ => Seq::empty(),
    }
}

/// Whether `item` is an array with an element at `index`.
pub open spec fn has_element(item: JsonItem, index: usize) -> bool {
    item is List && index < elements_of(item).len()
}

/// Parses a JSON document (`serde_json::from_str` to a
/// `serde_json::Value`). The outcome is determined by the text: it fails
/// exactly where the text is no JSON document, with an error whose message
/// the text determines, and else gives the value whose members are those
/// of the document.
#[verifier::external_body]
fn parse_document(text: &str) -> (document: Result<serde_json::Value, serde_json::Error>)
    ensures
        match document {
            Ok(value) => parsed_members(text@) matches Ok(members) && members == members_of(value),
            Err(error) => parsed_members(text@) matches Err(message) && message == message_of(
                error,
            ),
        },
{
    serde_json::from_str::<serde_json::Value>(text)
}

/// The message of a parse error, as `serde_json::Error` displays it: the
/// error determines its text.
#[verifier::external_body]
fn describe(error: &serde_json::Error) -> (message: String)
    ensures
        message@ == message_of(*error),
{
    format!("{error}")
}

/// The member with the given key (`Value::get` with a string): present
/// exactly where the value is an object that has the key.
#[verifier::external_body]
fn member<'a>(document: &'a serde_json::Value, key: &str) -> (found: Option<&'a serde_json::Value>)
    ensures
        match found {
            Some(value) => members_of(*document).contains_key(key@) && members_of(*document)[key@]
                == item_of(*value),
            None => !members_of(*document).contains_key(key@),
        },
{
    document.get(key)
}

/// The element at the given index (`Value::get` with an index): present
/// exactly where the value is an array that is long enough.
#[verifier::external_body]
fn element<'a>(list: &'a serde_json::Value, index: usize) -> (found: Option<&'a serde_json::Value>)
    ensures
        match found {
            Some(value) => has_element(item_of(*list), index) && elements_of(
                item_of(*list),
            )[index as int] == item_of(*value),
            None => !has_element(item_of(*list), index),
        },
{
    list.get(index)
}

/// Whether the value is `null` (`Value::is_null`).
#[verifier::external_body]
fn is_null(value: &serde_json::Value) -> (b: bool)
    ensures
        b == (item_of(*value) is Null),
{
    value.is_null()
}

/// The string that the value is (`Value::as_str`), if it is one.
#[verifier::external_body]
fn as_text(value: &serde_json::Value) -> (text: Option<String>)
    ensures
        text.deep_view() == (match item_of(*value) {
            JsonItem::Text(t) => Some(t),
            _ => None,
        }),
{
    value.as_str().map(String::from)
}

/// The number that the value is (`Value::as_u64`), if it is an integer
/// from 0 to `u64::MAX`.
#[verifier::external_body]
fn as_count(value: &serde_json::Value) -> (count: Option<u64>)
    ensures
        count == (match item_of(*value) {
            JsonItem::Count(n) => Some(n),
            _ => None,
        }),
{
    value.as_u64()
}

/// The length of the array that the value is (`Value::as_array`), if it is
/// one.
#[verifier::external_body]
fn list_len(value: &serde_json::Value) -> (len: Option<usize>)
    ensures
        match len {
            Some(n) => item_of(*value) is List && elements_of(item_of(*value)).len() == n,
            None => !(item_of(*value) is List),
        },
{
    value.as_array().map(Vec::len)
}

/// The data directory of the current user, as `dirs::data_dir` finds it in
/// the environment. Nothing is known of the result.
#[verifier::external_body]
fn data_dir() -> Option<String> {
    dirs::data_dir().map(|dir| dir.to_string_lossy().into_owned())
}

/// The configuration directory of the current user, as `dirs::config_dir`
/// finds it in the environment. Nothing is known of the result.
#[verifier::external_body]
fn config_dir() -> Option<String> {
    dirs::config_dir().map(|dir| dir.to_string_lossy().into_owned())
}

/// The settings of the program.
#[derive(Debug, Clone)]
pub struct JumprConfig {
    /// Path to the world trees directory.
    pub world_path: Option<String>,
    /// The source directories to scan for repositories.
    pub src_paths: Vec<String>,
    /// How deep to scan for repositories.
    pub depth_limit: Option<usize>,
    /// Path to the frecency database file.
    pub frecency_db_path: String,
}

/// The mathematical content of a [`JumprConfig`].
pub struct JumprConfigView {
    pub world_path: Option<Seq<char>>,
    pub src_paths: Seq<Seq<char>>,
    pub depth_limit: Option<usize>,
    pub frecency_db_path: Seq<char>,
}

impl View for JumprConfig {
    type V = JumprConfigView;

    open spec fn view(&self) -> JumprConfigView {
        JumprConfigView {
            world_path: self.world_path.deep_view(),
            src_paths: self.src_paths.deep_view(),
            depth_limit: self.depth_limit,
            frecency_db_path: self.frecency_db_path@,
        }
    }
}

/// One member of a configuration file.
#[derive(Debug, Clone, Copy, PartialEq, Eq, Structural)]
pub enum ConfigKey {
    DepthLimit,
    FrecencyDbPath,
    SrcPaths,
    WorldPath,
}

/// What a configuration file says of one setting.
#[derive(Debug)]
pub enum Setting<T> {
    /// Nothing: the member is absent or `null`.
    Unset,
    /// Something of the wrong kind.
    Invalid,
    /// This value.
    Given(T),
}

impl<T: DeepView> DeepView for Setting<T> {
    type V = Setting<T::V>;

    open spec fn deep_view(&self) -> Setting<T::V> {
        match self {
            Setting::Unset => Setting::Unset,
            Setting::Invalid => Setting::Invalid,
            Setting::Given(value) => Setting::Given(value.deep_view()),
        }
    }
}

/// What a configuration file says of each setting.
#[derive(Debug)]
pub struct ConfigOverrides {
    pub world_path: Setting<String>,
    pub src_paths: Setting<Vec<String>>,
    pub depth_limit: Setting<usize>,
    pub frecency_db_path: Setting<String>,
}

/// The mathematical content of [`ConfigOverrides`].
pub struct ConfigOverridesView {
    pub world_path: Setting<Seq<char>>,
    pub src_paths: Setting<Seq<Seq<char>>>,
    pub depth_limit: Setting<usize>,
    pub frecency_db_path: Setting<Seq<char>>,
}

impl View for ConfigOverrides {
    type V = ConfigOverridesView;

    open spec fn view(&self) -> ConfigOverridesView {
        ConfigOverridesView {
            world_path: self.world_path.deep_view(),
            src_paths: self.src_paths.deep_view(),
            depth_limit: self.depth_limit,
            frecency_db_path: self.frecency_db_path.deep_view(),
        }
    }
}

/// Why a configuration could not be loaded.
#[derive(Debug)]
pub enum ConfigError {
    /// The file is no JSON document; with the parser's message.
    Parse(String),
    /// A member is of the wrong kind.
    InvalidValue(ConfigKey),
    /// One of the source paths is empty or white space.
    EmptySourcePath,
}

/// The mathematical content of a [`ConfigError`].
pub enum ConfigFault {
    Parse(Seq<char>),
    InvalidValue(ConfigKey),
    EmptySourcePath,
}

impl View for ConfigError {
    type V = ConfigFault;

    open spec fn view(&self) -> ConfigFault {
        match self {
            ConfigError::Parse(reason) => ConfigFault::Parse(reason@),
            ConfigError::InvalidValue(key) => ConfigFault::InvalidValue(*key),
            ConfigError::EmptySourcePath => ConfigFault::EmptySourcePath,
        }
    }
}

/// The name of the member in a configuration file.
pub open spec fn key_name(key: ConfigKey) -> Seq<char> {
    match key {
        ConfigKey::DepthLimit => "depth_limit"@,
        ConfigKey::FrecencyDbPath => "frecency_db_path"@,
        ConfigKey::SrcPaths => "src_paths"@,
        ConfigKey::WorldPath => "world_path"@,
    }
}

/// The message that tells a user of the error.
pub open spec fn error_message(error: ConfigFault) -> Seq<char> {
    match error {
        ConfigFault::Parse(reason) => "Failed to parse configuration file: "@ + reason,
        ConfigFault::InvalidValue(key) => "Failed to deserialize configuration: invalid value for "@
            + key_name(key),
        ConfigFault::EmptySourcePath => "Configuration contains empty source paths"@,
    }
}

impl ConfigKey {
    /// The name of the member in a configuration file.
    pub fn name(&self) -> (name: &'static str)
        ensures
            name@ == key_name(*self),
    {
        match self {
            ConfigKey::DepthLimit => "depth_limit",
            ConfigKey::FrecencyDbPath => "frecency_db_path",
            ConfigKey::SrcPaths => "src_paths",
            ConfigKey::WorldPath => "world_path",
        }
    }
}

impl ConfigError {
    /// The message that tells a user of the error.
    pub fn message(&self) -> (message: String)
        ensures
            message@ == error_message(self@),
    {
        match self {
            ConfigError::Parse(reason) => {
                let mut message = "Failed to parse configuration file: ".to_owned();
                message.append(reason.as_str());
                message
            },
            ConfigError::InvalidValue(key) => {
                let mut message = "Failed to deserialize configuration: invalid value for ".to_owned();
                message.append(key.name());
                message
            },
            ConfigError::EmptySourcePath => "Configuration contains empty source paths".to_owned(),
        }
    }
}

/// What came of the step that loading asked for.
#[derive(Clone, Copy, Debug, PartialEq, Eq, Structural)]
pub enum LoadEvent {
    /// Nothing yet.
    Start,
    /// Whether the configuration file exists.
    Found(bool),
    /// Whether the default file could be created.
    Created(bool),
    /// Whether the configuration file exists after the attempt to create
    /// it.
    FoundAfterCreation(bool),
}

/// What loading does next.
#[derive(Clone, Copy, Debug, PartialEq, Eq, Structural)]
pub enum LoadAction {
    /// See whether the configuration file exists.
    Probe,
    /// Create the file with the default settings.
    CreateDefault,
    /// See whether the file exists now.
    ProbeAgain,
    /// Read the file and load the configuration from its contents.
    Read,
    /// Load the configuration without a file.
    UseDefaults,
}

/// What loading does next. It first asks whether the file exists. A file
/// that exists is read. A missing file is created where that is asked for,
/// and looked for again, whether or not it could be created; a file that
/// is still missing leaves the defaults.
pub open spec fn next_load_action(create_if_missing: bool, event: LoadEvent) -> LoadAction {
    match event {
        LoadEvent::Start => LoadAction::Probe,
        LoadEvent::Found(true) => LoadAction::Read,
        LoadEvent::Found(false) => if create_if_missing {
            LoadAction::CreateDefault
        } else {
            LoadAction::UseDefaults
        },
        LoadEvent::Created(_) => LoadAction::ProbeAgain,
        LoadEvent::FoundAfterCreation(true) => LoadAction::Read,
        LoadEvent::FoundAfterCreation(false) => LoadAction::UseDefaults,
    }
}

/// The outcome of loading, by its content.
pub open spec fn outcome_view(outcome: Result<JumprConfig, ConfigError>) -> Result<
    JumprConfigView,
    ConfigFault,
> {
    match outcome {
        Ok(config) => Ok(config@),
        Err(error) => Err(error@),
    }
}

/// The default location of the frecency database: `jumpr/frecency.db`
/// under the data directory, or under `.local/share` of the home directory
/// where no data directory is known.
pub open spec fn frecency_db_path_in(
    data_dir: Option<Seq<char>>,
    home: Option<Seq<char>>,
) -> Seq<char> {
    let base = match data_dir {
        Some(dir) => dir,
        None => expanded("~/.local/share"@, home),
    };
    joined_path(joined_path(base, "jumpr"@), "frecency.db"@)
}

/// The location of the configuration file: the override where there is
/// one, else `jumpr/config.json` under the configuration directory, or
/// under `.config` of the home directory where no configuration directory
/// is known.
pub open spec fn config_path_in(
    override_path: Option<Seq<char>>,
    config_dir: Option<Seq<char>>,
    home: Option<Seq<char>>,
) -> Seq<char> {
    match override_path {
        Some(path) => path,
        None => {
            let base = match config_dir {
                Some(dir) => dir,
                None => expanded("~/.config"@, home),
            };
            joined_path(joined_path(base, "jumpr"@), "config.json"@)
        },
    }
}

/// The default settings, with the frecency database at the given place.
pub open spec fn default_config(frecency_db_path: Seq<char>) -> JumprConfigView {
    JumprConfigView {
        world_path: Some("~/world/trees"@),
        src_paths: seq!["~/src"@],
        depth_limit: Some(3usize),
        frecency_db_path,
    }
}

/// Whether these are the default settings in some environment.
pub open spec fn is_default_config(config: JumprConfigView) -> bool {
    exists|data_dir: Option<Seq<char>>, home: Option<Seq<char>>|
        config == default_config(#[trigger] frecency_db_path_in(data_dir, home))
}

/// The setting that the member `key` gives, where a string is expected.
pub open spec fn text_setting(
    members: Map<Seq<char>, JsonItem>,
    key: Seq<char>,
) -> Setting<Seq<char>> {
    if !members.contains_key(key) {
        Setting::Unset
    } else {
        match members[key] {
            JsonItem::Null => Setting::Unset,
            JsonItem::Text(text) => Setting::Given(text),
            _ => Setting::Invalid,
        }
    }
}

/// The setting that the member `key` gives, where a count is expected.
pub open spec fn count_setting(
    members: Map<Seq<char>, JsonItem>,
    key: Seq<char>,
) -> Setting<usize> {
    if !members.contains_key(key) {
        Setting::Unset
    } else {
        match members[key] {
            JsonItem::Null => Setting::Unset,
            JsonItem::Count(n) => if n <= usize::MAX {
                Setting::Given(n as usize)
            } else {
                Setting::Invalid
            },
            _ => Setting::Invalid,
        }
    }
}

/// Whether every item is a string.
pub open spec fn all_text(items: Seq<JsonItem>) -> bool {
    forall|i: int| 0 <= i < items.len() ==> (#[trigger] items[i]) is Text
}

/// The setting that the member `key` gives, where a list of strings is
/// expected.
pub open spec fn list_setting(members: Map<Seq<char>, JsonItem>, key: Seq<char>) -> Setting<
    Seq<Seq<char>>,
> {
    if !members.contains_key(key) {
        Setting::Unset
    } else {
        match members[key] {
            JsonItem::Null => Setting::Unset,
            JsonItem::List(items) => if all_text(items) {
                Setting::Given(Seq::new(items.len(), |i: int| items[i]->Text_0))
            } else {
                Setting::Invalid
            },
            _ => Setting::Invalid,
        }
    }
}

/// What a document with the given members says of each setting.
pub open spec fn overrides_in(members: Map<Seq<char>, JsonItem>) -> ConfigOverridesView {
    ConfigOverridesView {
        world_path: text_setting(members, "world_path"@),
        src_paths: list_setting(members, "src_paths"@),
        depth_limit: count_setting(members, "depth_limit"@),
        frecency_db_path: text_setting(members, "frecency_db_path"@),
    }
}

/// Whether one of the paths is empty once trimmed.
pub open spec fn has_empty_path(paths: Seq<Seq<char>>) -> bool {
    exists|i: int| 0 <= i < paths.len() && (#[trigger] trimmed(paths[i])).len() == 0
}

/// The defaults with the given settings in place of theirs. A setting of
/// the wrong kind is an error, the first in the order of the keys; the
/// result is then checked for empty source paths.
pub open spec fn merged(defaults: JumprConfigView, overrides: ConfigOverridesView) -> Result<
    JumprConfigView,
    ConfigFault,
> {
    if overrides.depth_limit is Invalid {
        Err(ConfigFault::InvalidValue(ConfigKey::DepthLimit))
    } else if overrides.frecency_db_path is Invalid {
        Err(ConfigFault::InvalidValue(ConfigKey::FrecencyDbPath))
    } else if overrides.src_paths is Invalid {
        Err(ConfigFault::InvalidValue(ConfigKey::SrcPaths))
    } else if overrides.world_path is Invalid {
        Err(ConfigFault::InvalidValue(ConfigKey::WorldPath))
    } else {
        let config = JumprConfigView {
            world_path: match overrides.world_path {
                Setting::Given(path) => Some(path),
                _ => defaults.world_path,
            },
            src_paths: match overrides.src_paths {
                Setting::Given(paths) => paths,
                _ => defaults.src_paths,
            },
            depth_limit: match overrides.depth_limit {
                Setting::Given(limit) => Some(limit),
                _ => defaults.depth_limit,
            },
            frecency_db_path: match overrides.frecency_db_path {
                Setting::Given(path) => path,
                _ => defaults.frecency_db_path,
            },
        };
        if has_empty_path(config.src_paths) {
            Err(ConfigFault::EmptySourcePath)
        } else {
            Ok(config)
        }
    }
}

/// What loading gives for the contents of a configuration file, `None`
/// standing for a file that does not exist.
pub open spec fn loaded(defaults: JumprConfigView, contents: Option<Seq<char>>) -> Result<
    JumprConfigView,
    ConfigFault,
> {
    match contents {
        None => Ok(defaults),
        Some(text) => match parsed_members(text) {
            Err(message) => Err(ConfigFault::Parse(message)),
            Ok(members) => merged(defaults, overrides_in(members)),
        },
    }
}

/// A document without members changes nothing: the default settings come
/// back as they are, whatever the place of the frecency database.
pub proof fn lemma_no_members_keep_defaults(frecency_db_path: Seq<char>)
    ensures
        merged(default_config(frecency_db_path), overrides_in(Map::empty())) == Ok::<
            JumprConfigView,
            ConfigFault,
        >(default_config(frecency_db_path)),
{
    reveal_strlit("~/src");
    let paths = default_config(frecency_db_path).src_paths;
    assert(trimmed(paths[0]) == "~/src"@);
    assert(!has_empty_path(paths));
}

/// The default location of the frecency database, for the given data and
/// home directories.
pub fn frecency_db_path(data_dir: Option<String>, home: Option<&str>) -> (path: String)
    ensures
        path@ == frecency_db_path_in(data_dir.deep_view(), home.deep_view()),
{
    let base = match data_dir {
        Some(dir) => dir,
        None => {
            proof {
                reveal_strlit("~/.local/share");
            }
            expand_path_in("~/.local/share", home)
        },
    };
    let dir = join_path(base.as_str(), "jumpr");
    join_path(dir.as_str(), "frecency.db")
}

/// The default location of the frecency database in the environment of
/// the process.
fn default_frecency_db_path() -> (path: String)
    ensures
        exists|data_dir: Option<Seq<char>>, home: Option<Seq<char>>|
            path@ == #[trigger] frecency_db_path_in(data_dir, home),
{
    match data_dir() {
        Some(dir) => frecency_db_path(Some(dir), None),
        None => {
            let home = home_dir();
            match &home {
                Some(dir) => frecency_db_path(None, Some(dir.as_str())),
                None => frecency_db_path(None, None),
            }
        },
    }
}

impl JumprConfig {
    /// The default settings, with the frecency database at the given
    /// place.
    pub fn with_frecency_db_path(frecency_db_path: String) -> (config: JumprConfig)
        ensures
            config@ == default_config(frecency_db_path@),
    {
        let mut src_paths: Vec<String> = Vec::new();
        src_paths.push("~/src".to_owned());
        let config = JumprConfig {
            world_path: Some("~/world/trees".to_owned()),
            src_paths,
            depth_limit: Some(3),
            frecency_db_path,
        };
        assert(config@.src_paths =~= seq!["~/src"@]);
        config
    }
}

impl Default for JumprConfig {
    /// The default settings in the environment of the process.
    fn default() -> (config: JumprConfig)
        ensures
            is_default_config(config@),
    {
        JumprConfig::with_frecency_db_path(default_frecency_db_path())
    }
}

/// Reads the member `key` as a string.
fn read_text(document: &serde_json::Value, key: &str) -> (setting: Setting<String>)
    ensures
        setting.deep_view() == text_setting(members_of(*document), key@),
{
    match member(document, key) {
        None => Setting::Unset,
        Some(value) => {
            if is_null(value) {
                Setting::Unset
            } else {
                match as_text(value) {
                    Some(text) => Setting::Given(text),
                    None => Setting::Invalid,
                }
            }
        },
    }
}

/// Reads the member `key` as a count.
fn read_count(document: &serde_json::Value, key: &str) -> (setting: Setting<usize>)
    ensures
        setting == count_setting(members_of(*document), key@),
{
    match member(document, key) {
        None => Setting::Unset,
        Some(value) => {
            if is_null(value) {
                Setting::Unset
            } else {
                match as_count(value) {
                    Some(n) => if n <= usize::MAX as u64 {
                        Setting::Given(n as usize)
                    } else {
                        Setting::Invalid
                    },
                    None => Setting::Invalid,
                }
            }
        },
    }
}

/// Reads the member `key` as a list of strings.
fn read_list(document: &serde_json::Value, key: &str) -> (setting: Setting<Vec<String>>)
    ensures
        setting.deep_view() == list_setting(members_of(*document), key@),
{
    match member(document, key) {
        None => Setting::Unset,
        Some(value) => {
            if is_null(value) {
                return Setting::Unset;
            }
            match list_len(value) {
                None => Setting::Invalid,
                Some(len) => {
                    let ghost items = elements_of(item_of(*value));
                    let mut texts: Vec<String> = Vec::new();
                    let mut i: usize = 0;
                    while i < len
                        invariant
                            i <= len == items.len(),
                            item_of(*value) == JsonItem::List(items),
                            members_of(*document).contains_key(key@),
                            members_of(*document)[key@] == item_of(*value),
                            texts.len() == i,
                            forall|j: int| 0 <= j < i ==> (#[trigger] items[j]) is Text,
                            forall|j: int| 0 <= j < i ==> (#[trigger] texts[j])@ == items[j]->Text_0,
                        decreases len - i,
                    {
                        match element(value, i) {
                            Some(found) => match as_text(found) {
                                Some(text) => {
                                    texts.push(text);
                                },
                                None => {
                                    return Setting::Invalid;
                                },
                            },
                            None => {
                                return Setting::Invalid;
                            },
                        }
                        i += 1;
                    }
                    assert(texts.deep_view() =~= Seq::new(items.len(), |i: int| items[i]->Text_0));
                    Setting::Given(texts)
                },
            }
        },
    }
}

/// Whether one of the paths is empty once trimmed.
fn any_empty_path(paths: &Vec<String>) -> (found: bool)
    ensures
        found == has_empty_path(paths.deep_view()),
{
    let mut i: usize = 0;
    while i < paths.len()
        invariant
            i <= paths.len(),
            forall|j: int| 0 <= j < i ==> (#[trigger] trimmed(paths.deep_view()[j])).len() > 0,
        decreases paths.len() - i,
    {
        let chars = to_chars(paths[i].as_str());
        let (lo, hi) = trim_range(&chars, 0, chars.len());
        assert(chars@.subrange(0, chars.len() as int) =~= chars@);
        if lo == hi {
            assert(trimmed(paths.deep_view()[i as int]).len() == 0);
            return true;
        }
        i += 1;
    }
    false
}

/// Loads and locates the configuration.
pub struct ConfigManager;

impl ConfigManager {
    /// Reads what a JSON document says of each setting.
    fn read_overrides(document: &serde_json::Value) -> (overrides: ConfigOverrides)
        ensures
            overrides@ == overrides_in(members_of(*document)),
    {
        ConfigOverrides {
            world_path: read_text(document, "world_path"),
            src_paths: read_list(document, "src_paths"),
            depth_limit: read_count(document, "depth_limit"),
            frecency_db_path: read_text(document, "frecency_db_path"),
        }
    }

    /// Puts the given settings in place of the defaults and checks the
    /// result.
    pub fn merge(
        defaults: JumprConfig,
        overrides: ConfigOverrides,
    ) -> (outcome: Result<JumprConfig, ConfigError>)
        ensures
            outcome_view(outcome) == merged(defaults@, overrides@),
    {
        if let Setting::Invalid = overrides.depth_limit {
            return Err(ConfigError::InvalidValue(ConfigKey::DepthLimit));
        }
        if let Setting::Invalid = overrides.frecency_db_path {
            return Err(ConfigError::InvalidValue(ConfigKey::FrecencyDbPath));
        }
        if let Setting::Invalid = overrides.src_paths {
            return Err(ConfigError::InvalidValue(ConfigKey::SrcPaths));
        }
        if let Setting::Invalid = overrides.world_path {
            return Err(ConfigError::InvalidValue(ConfigKey::WorldPath));
        }
        let config = JumprConfig {
            world_path: match overrides.world_path {
                Setting::Given(path) => Some(path),
                _ => defaults.world_path,
            },
            src_paths: match overrides.src_paths {
                Setting::Given(paths) => paths,
                _ => defaults.src_paths,
            },
            depth_limit: match overrides.depth_limit {
                Setting::Given(limit) => Some(limit),
                _ => defaults.depth_limit,
            },
            frecency_db_path: match overrides.frecency_db_path {
                Setting::Given(path) => path,
                _ => defaults.frecency_db_path,
            },
        };
        if any_empty_path(&config.src_paths) {
            Err(ConfigError::EmptySourcePath)
        } else {
            Ok(config)
        }
    }

    /// Loads the configuration from the contents of a configuration file
    /// over the given defaults. `None` stands for a file that does not
    /// exist, and gives the defaults.
    pub fn load_config_over(
        defaults: JumprConfig,
        contents: Option<&str>,
    ) -> (outcome: Result<JumprConfig, ConfigError>)
        ensures
            outcome_view(outcome) == loaded(defaults@, contents.deep_view()),
    {
        match contents {
            None => Ok(defaults),
            Some(text) => match parse_document(text) {
                Err(error) => Err(ConfigError::Parse(describe(&error))),
                Ok(document) => {
                    let overrides = ConfigManager::read_overrides(&document);
                    ConfigManager::merge(defaults, overrides)
                },
            },
        }
    }

    /// Loads the configuration from the contents of the configuration
    /// file, over the defaults of the process's environment. `None` stands
    /// for a file that does not exist, and gives the defaults.
    pub fn load_config(contents: Option<&str>) -> (outcome: Result<JumprConfig, ConfigError>)
        ensures
            exists|defaults: JumprConfigView|
                is_default_config(defaults) && outcome_view(outcome) == #[trigger] loaded(
                    defaults,
                    contents.deep_view(),
                ),
    {
        ConfigManager::load_config_over(JumprConfig::default(), contents)
    }

    /// Decides what loading does next, where the default file is created
    /// if `create_if_missing` says so.
    pub fn load_config_with_options(create_if_missing: bool, event: LoadEvent) -> (action: LoadAction)
        ensures
            action == next_load_action(create_if_missing, event),
    {
        match event {
            LoadEvent::Start => LoadAction::Probe,
            LoadEvent::Found(true) | LoadEvent::FoundAfterCreation(true) => LoadAction::Read,
            LoadEvent::Found(false) => if create_if_missing {
                LoadAction::CreateDefault
            } else {
                LoadAction::UseDefaults
            },
            LoadEvent::Created(_) => LoadAction::ProbeAgain,
            LoadEvent::FoundAfterCreation(false) => LoadAction::UseDefaults,
        }
    }

    /// The location of the configuration file, for the given override and
    /// directories.
    pub fn config_path(
        override_path: Option<String>,
        config_dir: Option<String>,
        home: Option<&str>,
    ) -> (path: String)
        ensures
            path@ == config_path_in(
                override_path.deep_view(),
                config_dir.deep_view(),
                home.deep_view(),
            ),
    {
        match override_path {
            Some(path) => path,
            None => {
                let base = match config_dir {
                    Some(dir) => dir,
                    None => {
                        proof {
                            reveal_strlit("~/.config");
                        }
                        expand_path_in("~/.config", home)
                    },
                };
                let dir = join_path(base.as_str(), "jumpr");
                join_path(dir.as_str(), "config.json")
            },
        }
    }

    /// The location of the configuration file in the environment of the
    /// process: `override_path` where it is given, else below the
    /// configuration directory of the current user.
    pub fn get_config_path(override_path: Option<String>) -> (path: String)
        ensures
            exists|config_dir: Option<Seq<char>>, home: Option<Seq<char>>|
                path@ == #[trigger] config_path_in(override_path.deep_view(), config_dir, home),
    {
        if override_path.is_some() {
            return ConfigManager::config_path(override_path, None, None);
        }
        match config_dir() {
            Some(dir) => ConfigManager::config_path(None, Some(dir), None),
            None => {
                let home = home_dir();
                match &home {
                    Some(dir) => ConfigManager::config_path(None, None, Some(dir.as_str())),
                    None => ConfigManager::config_path(None, None, None),
                }
            },
        }
    }
}

} // verus!
