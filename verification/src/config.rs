//! The configuration: the directory that is backed up and the directory
//! that holds the snapshots, read from a TOML file.

use crate::files::{FileRead, FileReadView};
use crate::paths::{join, joined};
use crate::nesting::{lemma_nesting_within_marks, measure_nesting, nesting, nesting_marks};
use crate::views::result_view;
use vstd::prelude::*;

verus! {

/// The key of the directory that is backed up.
pub const BACKUP_DIR_KEY: &'static str = "backup_dir";

/// The key of the directory that holds the snapshots.
pub const REPO_DIR_KEY: &'static str = "repo_dir";

/// The folder, inside the repository, that holds one folder per commit.
pub const BACKUPS_FOLDER: &'static str = "backups";

/// Where the configuration file lies inside the user's configuration
/// directory.
pub const CONFIG_FILE_CONFIG_PATH: &'static str = "resilient/resilient.conf";

/// How deep a configuration text may nest. The TOML reader recurses as
/// deep as the text nests, so the limit stands for the stack of the
/// machine: this depth is read on a stack of two megabytes.
pub const MAX_NESTING: usize = 256;

/// `toml::Value`, a parsed TOML value. Nothing of what it holds is seen
/// here but through the functions below.
#[verifier::external_type_specification]
#[verifier::external_body]
pub struct ExTomlValue(toml::Value);

/// What `toml::from_str` makes of a text: nothing where the text is not
/// TOML; else whether the value read is a table, and its entries.
pub uninterp spec fn toml_document(text: Seq<char>) -> Option<
    (bool, Map<Seq<char>, Option<Seq<char>>>),
>;

/// Whether a TOML value is a table.
pub uninterp spec fn toml_is_table(value: toml::Value) -> bool;

/// What a TOML value holds under each of its keys, where it is a table:
/// the text of a string, and `None` for a value of another type. A value
/// that is no table has no keys.
pub uninterp spec fn toml_entries(value: toml::Value) -> Map<Seq<char>, Option<Seq<char>>>;

/// The text of a TOML value, where it is a string.
pub uninterp spec fn toml_text(value: toml::Value) -> Option<Seq<char>>;

/// `toml::from_str`, reading a `toml::Value`. The result depends on the
/// text alone: `None` stands for the parser's error. The parser sets no
/// limit to its own recursion. It calls itself once for each array or
/// inline table that lies inside another, once for each part of a dotted
/// key and once for each part of a table's header; handing the value
/// over, and dropping it, go as deep as the value does. Each of these
/// goes no deeper than one level more than `nesting` says, so the text
/// may nest `MAX_NESTING` deep and no deeper.
#[verifier::external_body]
fn toml_from_str(text: &str) -> (r: Option<toml::Value>)
    requires
        nesting(text@) <= MAX_NESTING,
    ensures
        match r {
            Some(value) => toml_document(text@) == Some(
                (toml_is_table(value), toml_entries(value)),
            ),
            None => toml_document(text@) is None,
        },
{
    toml::from_str::<toml::Value>(text).ok()
}

/// `toml::Value::is_table`: whether the value is the variant `Table`.
#[verifier::external_body]
fn toml_value_is_table(value: &toml::Value) -> (b: bool)
    ensures
        b == toml_is_table(*value),
{
    value.is_table()
}

/// `toml::Value::get` with a string index: the value under `key` where
/// `value` is a table that has the key, else `None`.
#[verifier::external_body]
fn toml_value_get<'a>(value: &'a toml::Value, key: &str) -> (r: Option<&'a toml::Value>)
    ensures
        match r {
            Some(member) => toml_entries(*value).contains_key(key@) && toml_entries(*value)[key@]
                == toml_text(*member),
            None => !toml_entries(*value).contains_key(key@),
        },
{
    value.get(key)
}

/// `toml::Value::as_str`: the text where the value is the variant
/// `String`, else `None`.
#[verifier::external_body]
fn toml_value_as_str<'a>(value: &'a toml::Value) -> (r: Option<&'a str>)
    ensures
        match r {
            Some(text) => toml_text(*value) == Some(text@),
            None => toml_text(*value) is None,
        },
{
    value.as_str()
}

/// The configuration.
#[derive(Debug, Clone, PartialEq, Eq)]
pub struct Config {
    backup_dir: String,
    repo_dir: String,
}

/// The mathematical value of a `Config`.
pub struct ConfigView {
    pub backup_dir: Seq<char>,
    pub repo_dir: Seq<char>,
}

impl View for Config {
    type V = ConfigView;

    closed spec fn view(&self) -> ConfigView {
        ConfigView { backup_dir: self.backup_dir@, repo_dir: self.repo_dir@ }
    }
}

/// Why there is no configuration.
#[derive(Debug, Clone, PartialEq, Eq)]
pub enum ConfigError {
    /// No configuration file was found.
    NotFound,
    /// The file at this path could not be read.
    Unreadable(String),
    /// The text nests deeper than `MAX_NESTING`.
    TooNested,
    /// The text is not TOML.
    Syntax,
    /// The TOML value is not a table.
    NotATable,
    /// The table lacks this key.
    MissingKey(String),
    /// The value under this key is not a string.
    NotAString(String),
}

/// The mathematical value of a `ConfigError`.
pub enum ConfigErrorView {
    NotFound,
    Unreadable(Seq<char>),
    TooNested,
    Syntax,
    NotATable,
    MissingKey(Seq<char>),
    NotAString(Seq<char>),
}

impl View for ConfigError {
    type V = ConfigErrorView;

    open spec fn view(&self) -> ConfigErrorView {
        match self {
            ConfigError::NotFound => ConfigErrorView::NotFound,
            ConfigError::Unreadable(path) => ConfigErrorView::Unreadable(path@),
            ConfigError::TooNested => ConfigErrorView::TooNested,
            ConfigError::Syntax => ConfigErrorView::Syntax,
            ConfigError::NotATable => ConfigErrorView::NotATable,
            ConfigError::MissingKey(key) => ConfigErrorView::MissingKey(key@),
            ConfigError::NotAString(key) => ConfigErrorView::NotAString(key@),
        }
    }
}

/// A place where the configuration file may lie, and whether a file is
/// there.
#[derive(Debug, Clone, PartialEq, Eq)]
pub struct Candidate {
    pub path: String,
    pub exists: bool,
}

/// The text under `key` in the entries of a table, or why there is none.
pub open spec fn string_key(
    entries: Map<Seq<char>, Option<Seq<char>>>,
    key: Seq<char>,
) -> Result<Seq<char>, ConfigErrorView> {
    if !entries.contains_key(key) {
        Err(ConfigErrorView::MissingKey(key))
    } else {
        match entries[key] {
            Some(text) => Ok(text),
            None => Err(ConfigErrorView::NotAString(key)),
        }
    }
}

/// The configuration that a parsed document gives: the document must be
/// a table that holds a string under each of the two keys. Of two faults
/// the one of the backed-up directory is reported.
pub open spec fn config_of(
    document: Option<(bool, Map<Seq<char>, Option<Seq<char>>>)>,
) -> Result<ConfigView, ConfigErrorView> {
    match document {
        None => Err(ConfigErrorView::Syntax),
        Some((is_table, entries)) => if !is_table {
            Err(ConfigErrorView::NotATable)
        } else {
            match (string_key(entries, BACKUP_DIR_KEY@), string_key(entries, REPO_DIR_KEY@)) {
                (Err(e), _) => Err(e),
                (Ok(_), Err(e)) => Err(e),
                (Ok(backup_dir), Ok(repo_dir)) => Ok(ConfigView { backup_dir, repo_dir }),
            }
        },
    }
}

/// What a parsed TOML value shows of itself, if there is one.
pub open spec fn document_of(value: Option<toml::Value>) -> Option<
    (bool, Map<Seq<char>, Option<Seq<char>>>),
> {
    match value {
        Some(v) => Some((toml_is_table(v), toml_entries(v))),
        None => None,
    }
}

/// The configuration that reading the file at `path` gives: that of the
/// TOML document that the file's text stands for. A text that nests
/// deeper than `MAX_NESTING` is not read.
pub open spec fn parsed_config(path: Seq<char>, file: FileReadView) -> Result<
    ConfigView,
    ConfigErrorView,
> {
    match file {
        FileReadView::Contents(text) => if nesting(text) > MAX_NESTING {
            Err(ConfigErrorView::TooNested)
        } else {
            config_of(toml_document(text))
        },
        _ => Err(ConfigErrorView::Unreadable(path)),
    }
}

/// A text with no more `[`, `{` and `.` than `MAX_NESTING` is within the
/// limit, however long it is: what it gives is what the TOML document
/// gives.
pub proof fn lemma_few_marks_are_read(path: Seq<char>, text: Seq<char>)
    requires
        nesting_marks(text) <= MAX_NESTING,
    ensures
        parsed_config(path, FileReadView::Contents(text)) == config_of(toml_document(text)),
{
    lemma_nesting_within_marks(text);
}

/// The path of the configuration file: the first of the two candidates at
/// which a file exists.
pub open spec fn chosen_config_path(
    in_config_dir: Option<Candidate>,
    from_variable: Option<Candidate>,
) -> Result<Seq<char>, ConfigErrorView> {
    if in_config_dir is Some && in_config_dir->0.exists {
        Ok(in_config_dir->0.path@)
    } else if from_variable is Some && from_variable->0.exists {
        Ok(from_variable->0.path@)
    } else {
        Err(ConfigErrorView::NotFound)
    }
}

/// The text under `key` in `table`.
pub fn get_toml_string_key(table: &toml::Value, key: &str) -> (r: Result<String, ConfigError>)
    ensures
        result_view(r) == string_key(toml_entries(*table), key@),
{
    match toml_value_get(table, key) {
        None => Err(ConfigError::MissingKey(key.to_owned())),
        Some(member) => match toml_value_as_str(member) {
            None => Err(ConfigError::NotAString(key.to_owned())),
            Some(text) => Ok(text.to_owned()),
        },
    }
}

impl Config {
    /// The configuration with these two directories.
    pub fn new(backup_dir: String, repo_dir: String) -> (r: Config)
        ensures
            r@ == (ConfigView { backup_dir: backup_dir@, repo_dir: repo_dir@ }),
    {
        Config { backup_dir, repo_dir }
    }

    /// The configuration that a parsed TOML value gives, `None` standing
    /// for a text that did not parse.
    pub fn from_toml(value: Option<toml::Value>) -> (r: Result<Config, ConfigError>)
        ensures
            result_view(r) == config_of(document_of(value)),
    {
        let table = match value {
            Some(v) => v,
            None => {
                return Err(ConfigError::Syntax);
            },
        };
        if !toml_value_is_table(&table) {
            return Err(ConfigError::NotATable);
        }
        let backup_dir = match get_toml_string_key(&table, BACKUP_DIR_KEY) {
            Ok(text) => text,
            Err(e) => {
                return Err(e);
            },
        };
        let repo_dir = match get_toml_string_key(&table, REPO_DIR_KEY) {
            Ok(text) => text,
            Err(e) => {
                return Err(e);
            },
        };
        Ok(Config { backup_dir, repo_dir })
    }

    /// The configuration that the file at `path` gives, from what reading
    /// it gave. A text that nests deeper than `MAX_NESTING` is refused
    /// unread: to read it may take more stack than there is.
    pub fn parse_config(path: &str, file: &FileRead) -> (r: Result<Config, ConfigError>)
        ensures
            result_view(r) == parsed_config(path@, file@),
    {
        match file {
            FileRead::Contents(text) => {
                if measure_nesting(text.as_str()) > MAX_NESTING {
                    return Err(ConfigError::TooNested);
                }
                Config::from_toml(toml_from_str(text.as_str()))
            },
            _ => Err(ConfigError::Unreadable(path.to_owned())),
        }
    }

    /// The folder that holds one folder per commit.
    pub fn get_backups_folder(&self) -> (r: String)
        ensures
            r@ == joined(self@.repo_dir, BACKUPS_FOLDER@),
    {
        join(self.repo_dir.as_str(), BACKUPS_FOLDER)
    }

    /// The directory that is backed up.
    pub fn get_backup_location(&self) -> (r: &str)
        ensures
            r@ == self@.backup_dir,
    {
        self.backup_dir.as_str()
    }

    /// Where the configuration file lies inside the user's configuration
    /// directory `config_dir`.
    pub fn default_config_path(config_dir: &str) -> (r: String)
        ensures
            r@ == joined(config_dir@, CONFIG_FILE_CONFIG_PATH@),
    {
        join(config_dir, CONFIG_FILE_CONFIG_PATH)
    }

    /// The path of the configuration file: the one inside the user's
    /// configuration directory if a file is there, else the one that the
    /// environment names if a file is there.
    pub fn get_config_path(in_config_dir: Option<Candidate>, from_variable: Option<Candidate>) -> (r:
        Result<String, ConfigError>)
        ensures
            match r {
                Ok(path) => chosen_config_path(in_config_dir, from_variable) == Ok::<
                    Seq<char>,
                    ConfigErrorView,
                >(path@),
                Err(e) => chosen_config_path(in_config_dir, from_variable) == Err::<
                    Seq<char>,
                    ConfigErrorView,
                >(e@),
            },
    {
        if let Some(c) = in_config_dir {
            if c.exists {
                return Ok(c.path);
            }
        }
        if let Some(c) = from_variable {
            if c.exists {
                return Ok(c.path);
            }
        }
        Err(ConfigError::NotFound)
    }
}

} // verus!
