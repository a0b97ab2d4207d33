//! Settings that select and locate the storage backend, and where the
//! configuration file is looked for.

use crate::error::AppError;
use crate::text::same_text;
use vstd::prelude::*;
use vstd::string::*;

verus! {

/// The backend used when the configuration names none.
pub fn default_storage_type() -> (kind: String)
    ensures
        kind@ == "json"@,
{
    String::from_str("json")
}

/// Where the prompts are stored.
#[derive(Debug)]
pub struct StorageConfig {
    /// The name of the backend: `json` or `libsql`.
    pub kind: String,
    /// The directory or database file; the backend's default where none is given.
    pub path: Option<String>,
}

impl Default for StorageConfig {
    fn default() -> (config: StorageConfig)
        ensures
            config.kind@ == "json"@,
            config.path is None,
    {
        StorageConfig { kind: default_storage_type(), path: None }
    }
}

/// The configuration of the application.
#[derive(Debug)]
pub struct AppConfig {
    /// Where the prompts are stored.
    pub storage: StorageConfig,
}

impl Default for AppConfig {
    fn default() -> (config: AppConfig)
        ensures
            config.storage.kind@ == "json"@,
            config.storage.path is None,
    {
        AppConfig { storage: StorageConfig::default() }
    }
}

/// A storage backend.
#[derive(Clone, Copy, Debug, PartialEq, Eq, Structural)]
pub enum StorageKind {
    /// A directory with one JSON file for each prompt.
    Json,
    /// An embedded SQL database with one table of prompts.
    LibSql,
}

/// The backend that a configured name stands for.
pub open spec fn kind_named(name: Seq<char>) -> Option<StorageKind> {
    if name == "json"@ {
        Some(StorageKind::Json)
    } else if name == "libsql"@ {
        Some(StorageKind::LibSql)
    } else {
        None
    }
}

/// Picks the backend that the configuration names. Any name but `json` and
/// `libsql` is a storage error.
pub fn storage_kind(name: &str) -> (outcome: Result<StorageKind, AppError>)
    ensures
        match kind_named(name@) {
            Some(kind) => outcome == Ok::<StorageKind, AppError>(kind),
            None => outcome matches Err(AppError::Storage(detail)) && detail@
                == "Invalid storage type"@,
        },
{
    if same_text(name, "json") {
        Ok(StorageKind::Json)
    } else if same_text(name, "libsql") {
        Ok(StorageKind::LibSql)
    } else {
        Err(AppError::Storage(String::from_str("Invalid storage type")))
    }
}

/// Where the configuration file is looked for.
#[derive(Debug)]
pub enum ConfigSource {
    /// The file that the command line names.
    Flag(String),
    /// The file that the environment names.
    Variable(String),
    /// The file `prompts-cli/config.toml` below this directory.
    Directory(String),
}

/// A source as plain mathematical values.
pub enum ConfigSourceView {
    Flag(Seq<char>),
    Variable(Seq<char>),
    Directory(Seq<char>),
}

impl View for ConfigSource {
    type V = ConfigSourceView;

    open spec fn view(&self) -> ConfigSourceView {
        match self {
            ConfigSource::Flag(path) => ConfigSourceView::Flag(path@),
            ConfigSource::Variable(path) => ConfigSourceView::Variable(path@),
            ConfigSource::Directory(path) => ConfigSourceView::Directory(path@),
        }
    }
}

impl ConfigSource {
    /// Whether it is an error if the file is not there. Only a file looked
    /// for below a directory may be missing.
    pub fn must_exist(&self) -> (required: bool)
        ensures
            required == !(self is Directory),
    {
        match self {
            ConfigSource::Flag(_) => true,
            ConfigSource::Variable(_) => true,
            ConfigSource::Directory(_) => false,
        }
    }

    /// Whether the default configuration takes the place of a file whose
    /// content is not a configuration. A file that the command line names
    /// must hold one.
    pub fn falls_back(&self) -> (lenient: bool)
        ensures
            lenient == !(self is Flag),
    {
        match self {
            ConfigSource::Flag(_) => false,
            _ => true,
        }
    }
}

/// The path of the configuration file below a configuration directory.
pub fn config_file_below_directory() -> (path: &'static str)
    ensures
        path@ == "prompts-cli/config.toml"@,
{
    "prompts-cli/config.toml"
}

/// The source of the configuration: the first that is given of the file
/// that the command line names, the file that the environment names, the
/// directory that the environment names, and the configuration directory of
/// the platform.
pub open spec fn resolved(
    flag: Option<Seq<char>>,
    variable: Option<Seq<char>>,
    directory_variable: Option<Seq<char>>,
    platform_directory: Option<Seq<char>>,
) -> Option<ConfigSourceView> {
    match flag {
        Some(path) => Some(ConfigSourceView::Flag(path)),
        None => match variable {
            Some(path) => Some(ConfigSourceView::Variable(path)),
            None => match directory_variable {
                Some(path) => Some(ConfigSourceView::Directory(path)),
                None => match platform_directory {
                    Some(path) => Some(ConfigSourceView::Directory(path)),
                    None => None,
                },
            },
        },
    }
}

/// Decides where the configuration is read from. With no source at all
/// there is an error.
pub fn resolve_config_source(
    flag: Option<String>,
    variable: Option<String>,
    directory_variable: Option<String>,
    platform_directory: Option<String>,
) -> (outcome: Result<ConfigSource, AppError>)
    ensures
        match resolved(
            flag.deep_view(),
            variable.deep_view(),
            directory_variable.deep_view(),
            platform_directory.deep_view(),
        ) {
            Some(source) => outcome matches Ok(found) && found@ == source,
            None => outcome matches Err(AppError::Anyhow(detail)) && detail@
                == "Could not find config directory"@,
        },
{
    match flag {
        Some(path) => Ok(ConfigSource::Flag(path)),
        None => match variable {
            Some(path) => Ok(ConfigSource::Variable(path)),
            None => match directory_variable {
                Some(path) => Ok(ConfigSource::Directory(path)),
                None => match platform_directory {
                    Some(path) => Ok(ConfigSource::Directory(path)),
                    None => Err(
                        AppError::Anyhow(String::from_str("Could not find config directory")),
                    ),
                },
            },
        },
    }
}

} // verus!
