//! The errors of the backup scheduler.

use crate::text::{from_chars, push_str};
use vstd::prelude::*;
use vstd::string::*;

verus! {

/// What can go wrong while a backup is configured, planned or run.
#[derive(Debug)]
#[allow(inconsistent_fields)]
pub enum Error {
    /// The configuration file could not be read or understood.
    ConfigFile { path: String, cause: String },
    /// The configuration text could not be understood.
    ConfigParse { cause: String },
    /// No configuration file stands at the default place.
    DefaultConfigFileNotFound { path: String },
    /// No configuration file stands at the place that was named.
    ConfigFileNotFound { path: String },
    /// A file or directory operation failed.
    FileIO { message: String, path: String, cause: Option<String> },
    /// The configuration names a schedule, backup, remote or group it does not hold.
    ConfigReferenceNotFound { schema: String, name: String },
    /// A configured directory does not exist.
    ConfiguredDirNotFound { path: String, config_key: String },
    /// A directory below a configured directory does not exist.
    ConfiguredSubdirNotFound { path: String, config_key: String },
    /// `rsync` ended with a failure.
    RsyncError { cause: String },
    /// `tar` ended with a failure.
    TarXZError { cause: String },
    /// A text is not the name of a backup run.
    RunNameParse { name: String },
    /// An incremental backup was asked for where no full backup exists.
    FullBackupNotFound { backup_name: String },
    /// Any other failure.
    Generic(String),
}

/// An error as mathematical data.
#[allow(inconsistent_fields)]
pub enum ErrorView {
    ConfigFile { path: Seq<char>, cause: Seq<char> },
    ConfigParse { cause: Seq<char> },
    DefaultConfigFileNotFound { path: Seq<char> },
    ConfigFileNotFound { path: Seq<char> },
    FileIO { message: Seq<char>, path: Seq<char>, cause: Option<Seq<char>> },
    ConfigReferenceNotFound { schema: Seq<char>, name: Seq<char> },
    ConfiguredDirNotFound { path: Seq<char>, config_key: Seq<char> },
    ConfiguredSubdirNotFound { path: Seq<char>, config_key: Seq<char> },
    RsyncError { cause: Seq<char> },
    TarXZError { cause: Seq<char> },
    RunNameParse { name: Seq<char> },
    FullBackupNotFound { backup_name: Seq<char> },
    Generic(Seq<char>),
}

/// The text of an optional string.
pub open spec fn option_text(s: Option<String>) -> Option<Seq<char>> {
    match s {
        Some(s) => Some(s@),
        None => None,
    }
}

impl View for Error {
    type V = ErrorView;

    open spec fn view(&self) -> ErrorView {
        match *self {
            Error::ConfigFile { path, cause } => ErrorView::ConfigFile {
                path: path@,
                cause: cause@,
            },
            Error::ConfigParse { cause } => ErrorView::ConfigParse { cause: cause@ },
            Error::DefaultConfigFileNotFound { path } => ErrorView::DefaultConfigFileNotFound {
                path: path@,
            },
            Error::ConfigFileNotFound { path } => ErrorView::ConfigFileNotFound { path: path@ },
            Error::FileIO { message, path, cause } => ErrorView::FileIO {
                message: message@,
                path: path@,
                cause: option_text(cause),
            },
            Error::ConfigReferenceNotFound { schema, name } => ErrorView::ConfigReferenceNotFound {
                schema: schema@,
                name: name@,
            },
            Error::ConfiguredDirNotFound { path, config_key } => ErrorView::ConfiguredDirNotFound {
                path: path@,
                config_key: config_key@,
            },
            Error::ConfiguredSubdirNotFound {
                path,
                config_key,
            } => ErrorView::ConfiguredSubdirNotFound { path: path@, config_key: config_key@ },
            Error::RsyncError { cause } => ErrorView::RsyncError { cause: cause@ },
            Error::TarXZError { cause } => ErrorView::TarXZError { cause: cause@ },
            Error::RunNameParse { name } => ErrorView::RunNameParse { name: name@ },
            Error::FullBackupNotFound { backup_name } => ErrorView::FullBackupNotFound {
                backup_name: backup_name@,
            },
            Error::Generic(message) => ErrorView::Generic(message@),
        }
    }
}

/// The message that heads a failed file operation where none was given.
pub open spec fn file_io_heading() -> Seq<char> {
    "File IO error"@
}

impl ErrorView {
    /// The line that tells a person of the error.
    pub open spec fn message(self) -> Seq<char> {
        match self {
            ErrorView::ConfigFile { path, cause } => "Config file error: "@ + path + " :: "@
                + cause,
            ErrorView::ConfigParse { cause } => "Config parsing error :: "@ + cause,
            ErrorView::DefaultConfigFileNotFound { path } => "Config file "@ + path
                + " not found. Have you ran bak9 config yet?"@,
            ErrorView::ConfigFileNotFound { path } => "Config file "@ + path + " not found."@,
            ErrorView::FileIO { message, path, cause } => message + ": "@ + path + (match cause {
                Some(c) => " :: "@ + c,
                None => Seq::empty(),
            }),
            ErrorView::ConfigReferenceNotFound { schema, name } => "Config item "@ + name
                + " not found for schema "@ + schema,
            ErrorView::ConfiguredDirNotFound { path, config_key } => "Directory "@ + path
                + " not found. (config: "@ + config_key + ")"@,
            ErrorView::ConfiguredSubdirNotFound { path, config_key } => "Subdirectory "@ + path
                + " not found. (config: "@ + config_key + ")"@,
            ErrorView::RsyncError { cause } => "Failed to rsync: "@ + cause,
            ErrorView::TarXZError { cause } => "Failed to tar xz: "@ + cause,
            ErrorView::RunNameParse { name } => "Not the name of a backup run: "@ + name,
            ErrorView::FullBackupNotFound { backup_name } => "No full backup found for "@
                + backup_name,
            ErrorView::Generic(message) => message,
        }
    }
}

impl Error {
    /// The configuration file at `path` could not be used, because of `cause`.
    pub fn config_file(path: &str, cause: &str) -> (e: Error)
        ensures
            e@ == (ErrorView::ConfigFile { path: path@, cause: cause@ }),
    {
        Error::ConfigFile { path: String::from_str(path), cause: String::from_str(cause) }
    }

    /// The configuration file at `path` could not be used, because of `cause`.
    pub fn new_config_file(path: &str, cause: &str) -> (e: Error)
        ensures
            e@ == (ErrorView::ConfigFile { path: path@, cause: cause@ }),
    {
        Error::config_file(path, cause)
    }

    /// The configuration file at `path` holds the entry `config` that is
    /// wrong in the way `msg` says.
    pub fn new_config(path: &str, config: &str, msg: &str) -> (e: Error)
        ensures
            e@ == (ErrorView::ConfigFile { path: path@, cause: msg@ + " :: "@ + config@ }),
    {
        let mut cause = String::from_str(msg);
        cause.append(" :: ");
        cause.append(config);
        Error::ConfigFile { path: String::from_str(path), cause }
    }

    /// The directory at `path`, configured under `config_key`, does not exist.
    pub fn configured_dir(path: &str, config_key: &str) -> (e: Error)
        ensures
            e@ == (ErrorView::ConfiguredDirNotFound { path: path@, config_key: config_key@ }),
    {
        Error::ConfiguredDirNotFound {
            path: String::from_str(path),
            config_key: String::from_str(config_key),
        }
    }

    /// The directory at `path`, below the one configured under `config_key`,
    /// does not exist.
    pub fn configured_subdir(path: &str, config_key: &str) -> (e: Error)
        ensures
            e@ == (ErrorView::ConfiguredSubdirNotFound { path: path@, config_key: config_key@ }),
    {
        Error::ConfiguredSubdirNotFound {
            path: String::from_str(path),
            config_key: String::from_str(config_key),
        }
    }

    /// The operation that `message` names failed on `path`, because of `cause`.
    pub fn file_io(cause: &str, path: &str, message: &str) -> (e: Error)
        ensures
            e@ == (ErrorView::FileIO { message: message@, path: path@, cause: Some(cause@) }),
    {
        Error::FileIO {
            message: String::from_str(message),
            path: String::from_str(path),
            cause: Some(String::from_str(cause)),
        }
    }

    /// The operation that `message` names failed on `path`; no cause is known.
    pub fn file_io_err(path: &str, message: &str) -> (e: Error)
        ensures
            e@ == (ErrorView::FileIO { message: message@, path: path@, cause: None }),
    {
        Error::FileIO {
            message: String::from_str(message),
            path: String::from_str(path),
            cause: None,
        }
    }

    /// A file operation failed on `path`, because of `cause`.
    pub fn new_file_io(path: &str, cause: &str) -> (e: Error)
        ensures
            e@ == (ErrorView::FileIO {
                message: file_io_heading(),
                path: path@,
                cause: Some(cause@),
            }),
    {
        Error::file_io(cause, path, "File IO error")
    }

    /// `rsync` failed and wrote `stderr`.
    pub fn rsync(stderr: &str) -> (e: Error)
        ensures
            e@ == (ErrorView::RsyncError { cause: stderr@ }),
    {
        Error::RsyncError { cause: String::from_str(stderr) }
    }

    /// `tar` failed and wrote `stderr`.
    pub fn tar_xz(stderr: &str) -> (e: Error)
        ensures
            e@ == (ErrorView::TarXZError { cause: stderr@ }),
    {
        Error::TarXZError { cause: String::from_str(stderr) }
    }

    /// The configuration holds no entry `name` of the kind `schema`.
    pub fn reference_not_found(schema: &str, name: &str) -> (e: Error)
        ensures
            e@ == (ErrorView::ConfigReferenceNotFound { schema: schema@, name: name@ }),
    {
        Error::ConfigReferenceNotFound {
            schema: String::from_str(schema),
            name: String::from_str(name),
        }
    }

    /// A copy of the error.
    pub fn duplicate(&self) -> (e: Error)
        ensures
            e@ == self@,
    {
        match self {
            Error::ConfigFile { path, cause } => Error::ConfigFile {
                path: path.clone(),
                cause: cause.clone(),
            },
            Error::ConfigParse { cause } => Error::ConfigParse { cause: cause.clone() },
            Error::DefaultConfigFileNotFound { path } => Error::DefaultConfigFileNotFound {
                path: path.clone(),
            },
            Error::ConfigFileNotFound { path } => Error::ConfigFileNotFound { path: path.clone() },
            Error::FileIO { message, path, cause } => Error::FileIO {
                message: message.clone(),
                path: path.clone(),
                cause: match cause {
                    Some(c) => Some(c.clone()),
                    None => None,
                },
            },
            Error::ConfigReferenceNotFound { schema, name } => Error::ConfigReferenceNotFound {
                schema: schema.clone(),
                name: name.clone(),
            },
            Error::ConfiguredDirNotFound { path, config_key } => Error::ConfiguredDirNotFound {
                path: path.clone(),
                config_key: config_key.clone(),
            },
            Error::ConfiguredSubdirNotFound { path, config_key } => Error::ConfiguredSubdirNotFound {
                path: path.clone(),
                config_key: config_key.clone(),
            },
            Error::RsyncError { cause } => Error::RsyncError { cause: cause.clone() },
            Error::TarXZError { cause } => Error::TarXZError { cause: cause.clone() },
            Error::RunNameParse { name } => Error::RunNameParse { name: name.clone() },
            Error::FullBackupNotFound { backup_name } => Error::FullBackupNotFound {
                backup_name: backup_name.clone(),
            },
            Error::Generic(message) => Error::Generic(message.clone()),
        }
    }

    /// The line that tells a person of the error.
    pub fn to_string(&self) -> (s: String)
        ensures
            s@ == self@.message(),
    {
        let mut out: Vec<char> = Vec::new();
        match self {
            Error::ConfigFile { path, cause } => {
                push_str(&mut out, "Config file error: ");
                push_str(&mut out, path.as_str());
                push_str(&mut out, " :: ");
                push_str(&mut out, cause.as_str());
            },
            Error::ConfigParse { cause } => {
                push_str(&mut out, "Config parsing error :: ");
                push_str(&mut out, cause.as_str());
            },
            Error::DefaultConfigFileNotFound { path } => {
                push_str(&mut out, "Config file ");
                push_str(&mut out, path.as_str());
                push_str(&mut out, " not found. Have you ran bak9 config yet?");
            },
            Error::ConfigFileNotFound { path } => {
                push_str(&mut out, "Config file ");
                push_str(&mut out, path.as_str());
                push_str(&mut out, " not found.");
            },
            Error::FileIO { message, path, cause } => {
                push_str(&mut out, message.as_str());
                push_str(&mut out, ": ");
                push_str(&mut out, path.as_str());
                match cause {
                    Some(c) => {
                        push_str(&mut out, " :: ");
                        push_str(&mut out, c.as_str());
                    },
                    None => {},
                }
            },
            Error::ConfigReferenceNotFound { schema, name } => {
                push_str(&mut out, "Config item ");
                push_str(&mut out, name.as_str());
                push_str(&mut out, " not found for schema ");
                push_str(&mut out, schema.as_str());
            },
            Error::ConfiguredDirNotFound { path, config_key } => {
                push_str(&mut out, "Directory ");
                push_str(&mut out, path.as_str());
                push_str(&mut out, " not found. (config: ");
                push_str(&mut out, config_key.as_str());
                push_str(&mut out, ")");
            },
            Error::ConfiguredSubdirNotFound { path, config_key } => {
                push_str(&mut out, "Subdirectory ");
                push_str(&mut out, path.as_str());
                push_str(&mut out, " not found. (config: ");
                push_str(&mut out, config_key.as_str());
                push_str(&mut out, ")");
            },
            Error::RsyncError { cause } => {
                push_str(&mut out, "Failed to rsync: ");
                push_str(&mut out, cause.as_str());
            },
            Error::TarXZError { cause } => {
                push_str(&mut out, "Failed to tar xz: ");
                push_str(&mut out, cause.as_str());
            },
            Error::RunNameParse { name } => {
                push_str(&mut out, "Not the name of a backup run: ");
                push_str(&mut out, name.as_str());
            },
            Error::FullBackupNotFound { backup_name } => {
                push_str(&mut out, "No full backup found for ");
                push_str(&mut out, backup_name.as_str());
            },
            Error::Generic(message) => {
                push_str(&mut out, message.as_str());
            },
        }
        assert(out@ =~= self@.message());
        from_chars(&out)
    }
}

} // verus!
