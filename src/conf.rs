//! The configuration: tools, the fragments each merges, the conditions under
//! which a fragment applies, and where the merged document goes.

use vstd::prelude::*;
use vstd::string::StringExecFns;

verus! {

/// The format a tool's merged document is declared in.
#[derive(Clone, Copy, Debug, PartialEq, Eq, Structural)]
pub enum Format {
    Toml,
    Yaml,
    Json,
}

/// A path that named an existing file, or a link to one, when the
/// configuration was loaded.
#[derive(Debug)]
pub struct FilePath(pub String);

/// A path that named an existing directory, or a link to one, when the
/// configuration was loaded.
#[derive(Debug)]
pub struct DirectoryPath(pub String);

/// Where a fragment's text comes from: a file, or the output of a command.
#[derive(Debug)]
pub enum InjectConfig {
    Path { path: FilePath },
    Template { command: String },
}

/// A condition on the working directory.
#[derive(Debug)]
pub struct When {
    pub directory: DirectoryPath,
    pub match_subdirectories: bool,
}

/// One fragment: its source, and the conditions of which one must hold for it
/// to apply (none at all: it always applies).
#[derive(Debug)]
pub struct Config {
    pub config: InjectConfig,
    pub when: Option<Vec<When>>,
}

/// A destination of the merged document, and the name of an environment
/// variable to export its path under, if any.
#[derive(Debug)]
pub struct Inject {
    pub path: String,
    pub env_name: Option<String>,
}

/// One tool: the fragments merged into its document, and where it goes.
#[derive(Debug)]
pub struct Tool {
    pub name: String,
    pub format: Format,
    pub inject: Vec<Inject>,
    pub configs: Vec<Config>,
}

/// The whole configuration.
#[derive(Debug)]
pub struct RelConf {
    pub tools: Vec<Tool>,
}

/// A configuration that cannot be accepted.
#[derive(Debug, PartialEq, Eq)]
pub enum ConfigError {
    /// A fragment names both a path and a command.
    BothSources,
    /// A fragment names neither a path nor a command.
    NoSource,
    /// A fragment's path is not a file.
    NotAFile { path: String },
    /// A condition's directory is not a directory.
    NotADirectory { path: String },
}

impl ConfigError {
    /// A sentence describing the error.
    pub fn message(&self) -> (r: String)
        ensures
            r@ == match self {
                ConfigError::BothSources => "cannot specify both 'path' and 'command' on config"@,
                ConfigError::NoSource => "must specify either 'path' or 'command' on config"@,
                ConfigError::NotAFile { path } => "Expected a file path or symlink to a file, received "@
                    + path@,
                ConfigError::NotADirectory { .. } => "Expected a directory path or symlink to a directory"@,
            },
    {
        match self {
            ConfigError::BothSources => String::from_str("cannot specify both 'path' and 'command' on config"),
            ConfigError::NoSource => String::from_str("must specify either 'path' or 'command' on config"),
            ConfigError::NotAFile { path } => {
                let mut m = String::from_str("Expected a file path or symlink to a file, received ");
                m.append(path.as_str());
                m
            },
            ConfigError::NotADirectory { .. } => String::from_str("Expected a directory path or symlink to a directory"),
        }
    }
}

impl InjectConfig {
    /// The source named by the optional `path` and `command` fields of a
    /// fragment: exactly one of them must be given.
    pub fn from_fields(path: Option<FilePath>, command: Option<String>) -> (r: Result<InjectConfig, ConfigError>)
        ensures
            match (path, command) {
                (Some(p), None) => r == Ok::<InjectConfig, ConfigError>(InjectConfig::Path { path: p }),
                (None, Some(c)) => r == Ok::<InjectConfig, ConfigError>(InjectConfig::Template { command: c }),
                (Some(_), Some(_)) => r == Err::<InjectConfig, ConfigError>(ConfigError::BothSources),
                (None, None) => r == Err::<InjectConfig, ConfigError>(ConfigError::NoSource),
            },
    {
        match (path, command) {
            (Some(p), None) => Ok(InjectConfig::Path { path: p }),
            (None, Some(c)) => Ok(InjectConfig::Template { command: c }),
            (Some(_), Some(_)) => Err(ConfigError::BothSources),
            (None, None) => Err(ConfigError::NoSource),
        }
    }
}

impl FilePath {
    /// A file path, accepted when the file system found a file (or a link to
    /// one) at it.
    pub fn checked(path: String, is_file: bool) -> (r: Result<FilePath, ConfigError>)
        ensures
            is_file ==> r == Ok::<FilePath, ConfigError>(FilePath(path)),
            !is_file ==> r == Err::<FilePath, ConfigError>(ConfigError::NotAFile { path }),
    {
        if is_file {
            Ok(FilePath(path))
        } else {
            Err(ConfigError::NotAFile { path })
        }
    }
}

impl DirectoryPath {
    /// A directory path, accepted when the file system found a directory (or
    /// a link to one) at it.
    pub fn checked(path: String, is_dir: bool) -> (r: Result<DirectoryPath, ConfigError>)
        ensures
            is_dir ==> r == Ok::<DirectoryPath, ConfigError>(DirectoryPath(path)),
            !is_dir ==> r == Err::<DirectoryPath, ConfigError>(ConfigError::NotADirectory { path }),
    {
        if is_dir {
            Ok(DirectoryPath(path))
        } else {
            Err(ConfigError::NotADirectory { path })
        }
    }
}

impl Config {
    /// The conditions of the fragment; a missing list is an empty one.
    pub fn conditions(&self) -> (r: &[When])
        ensures
            r@ == match self.when {
                Some(w) => w@,
                None => Seq::<When>::empty(),
            },
    {
        match &self.when {
            Some(w) => w.as_slice(),
            None => &[],
        }
    }
}

} // verus!
