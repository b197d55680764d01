//! The paths of the storage tree. Below the storage directory stand
//! `full/<host>/<user>/<run>/`, `incremental/<host>/<user>/<run>/`,
//! `archive/<run>.tar.xz` and `logs/<run>`. Paths are POSIX paths.

use crate::backup::BackupType;
use crate::error::{Error, ErrorView};
use crate::run_name::{BackupRunName, BackupRunNameView};
use crate::text::{from_chars, push_chars, push_str, slice_chars, to_chars};
use vstd::prelude::*;
use vstd::string::*;

verus! {

pub const HOME_CONFIG_DIR: &'static str = ".config/bak9";

pub const BAK9_CONFIG_FILENAME: &'static str = "bak9.toml";

pub const BACKUP_ARCHIVE_DIRNAME: &'static str = "archive";

pub const BACKUP_FULL_DIRNAME: &'static str = "full";

pub const BACKUP_INCREMENTAL_DIRNAME: &'static str = "incremental";

pub const BACKUP_LOGS_DIRNAME: &'static str = "logs";

pub const BAK9_FS_VERSION_FILENAME: &'static str = ".bak9_fs_version";

pub const ENV_BAK9_HOME: &'static str = "BAK9_HOME";

pub const TAR_XZ_EXTENSION: &'static str = "tar.xz";

/// The path `name` below the directory `base`: `name` itself where it is
/// absolute or `base` is empty, else the two with one slash between them.
pub open spec fn spec_join(base: Seq<char>, name: Seq<char>) -> Seq<char> {
    if name.len() > 0 && name[0] == '/' {
        name
    } else if base.len() == 0 {
        name
    } else if base.last() == '/' {
        base + name
    } else {
        base + seq!['/'] + name
    }
}

/// The path with `.` and `ext` added behind it.
pub open spec fn spec_append_extension(path: Seq<char>, ext: Seq<char>) -> Seq<char> {
    path + seq!['.'] + ext
}

/// The place of the last slash of `path` before place `end`; -1 where there
/// is none.
pub open spec fn last_slash(path: Seq<char>, end: int) -> int
    decreases end,
{
    if end <= 0 || end > path.len() {
        -1
    } else if path[end - 1] == '/' {
        end - 1
    } else {
        last_slash(path, end - 1)
    }
}

/// The directory that holds `path`: what stands before its last slash, the
/// root for a path directly below the root, and the empty path for a name
/// without a slash. The root and the empty path are held by no directory.
pub open spec fn spec_parent(path: Seq<char>) -> Option<Seq<char>> {
    let i = last_slash(path, path.len() as int);
    if path.len() == 0 || path == seq!['/'] {
        None
    } else if i < 0 {
        Some(Seq::empty())
    } else if i == 0 {
        Some(seq!['/'])
    } else {
        Some(path.take(i))
    }
}

/// The last name of `path`: what stands behind its last slash.
pub open spec fn spec_file_name(path: Seq<char>) -> Seq<char> {
    path.skip(last_slash(path, path.len() as int) + 1)
}

/// The path `name` below the directory `base`.
pub fn join(base: &str, name: &str) -> (r: String)
    ensures
        r@ == spec_join(base@, name@),
{
    let b = to_chars(base);
    let n = to_chars(name);
    if n.len() > 0 && n[0] == '/' {
        return String::from_str(name);
    }
    if b.len() == 0 {
        return String::from_str(name);
    }
    let mut out: Vec<char> = Vec::new();
    push_str(&mut out, base);
    if b[b.len() - 1] != '/' {
        proof {
            reveal_strlit("/");
            assert("/"@ =~= seq!['/']);
        }
        push_str(&mut out, "/");
    }
    push_str(&mut out, name);
    assert(out@ =~= spec_join(base@, name@));
    from_chars(&out)
}

/// The path with `.` and `ext` added behind it. A path without an
/// extension gets one; a path with an extension keeps it and gets another.
pub fn append_extension(path: &str, ext: &str) -> (r: String)
    ensures
        r@ == spec_append_extension(path@, ext@),
{
    proof {
        reveal_strlit(".");
        assert("."@ =~= seq!['.']);
    }
    let mut r = String::from_str(path);
    r.append(".");
    r.append(ext);
    r
}

/// The place of the last slash of `path`, if it has one.
fn find_last_slash(path: &Vec<char>) -> (r: Option<usize>)
    ensures
        match r {
            Some(i) => i == last_slash(path@, path@.len() as int) && i < path@.len(),
            None => last_slash(path@, path@.len() as int) == -1,
        },
{
    let mut end: usize = path.len();
    while end > 0
        invariant
            end <= path.len(),
            last_slash(path@, path@.len() as int) == last_slash(path@, end as int),
        decreases end,
    {
        if path[end - 1] == '/' {
            return Some(end - 1);
        }
        end -= 1;
    }
    None
}

/// The directory that holds `path`.
pub fn parent(path: &str) -> (r: Option<String>)
    ensures
        match r {
            Some(dir) => spec_parent(path@) == Some(dir@),
            None => spec_parent(path@) is None,
        },
{
    let chars = to_chars(path);
    if chars.len() == 0 {
        return None;
    }
    if chars.len() == 1 && chars[0] == '/' {
        assert(chars@ =~= seq!['/']);
        return None;
    }
    assert(chars@ != seq!['/']) by {
        if chars@ == seq!['/'] {
            assert(chars@.len() == 1);
            assert(chars@[0] == seq!['/'][0]);
        }
    }
    match find_last_slash(&chars) {
        None => Some(String::new()),
        Some(i) => {
            if i == 0 {
                proof {
                    reveal_strlit("/");
                    assert("/"@ =~= seq!['/']);
                }
                Some(String::from_str("/"))
            } else {
                let dir = slice_chars(&chars, 0, i);
                Some(from_chars(&dir))
            }
        },
    }
}

/// The last name of `path`.
pub fn file_name(path: &str) -> (r: String)
    ensures
        r@ == spec_file_name(path@),
{
    let chars = to_chars(path);
    let len = chars.len();
    let from = match find_last_slash(&chars) {
        None => 0,
        Some(i) => {
            assert(i < len);
            i + 1
        },
    };
    let mut out: Vec<char> = Vec::new();
    push_chars(&mut out, &chars, from, chars.len());
    assert(out@ =~= spec_file_name(path@));
    from_chars(&out)
}

impl BackupType {
    /// The name of the directory that holds the backups of this kind.
    pub open spec fn spec_subdir_name(self) -> Seq<char> {
        match self {
            BackupType::Full => "full"@,
            BackupType::Incremental => "incremental"@,
        }
    }

    /// The name of the directory that holds the backups of this kind.
    pub fn subdir_name(&self) -> (r: &'static str)
        ensures
            r@ == self.spec_subdir_name(),
    {
        match self {
            BackupType::Full => BACKUP_FULL_DIRNAME,
            BackupType::Incremental => BACKUP_INCREMENTAL_DIRNAME,
        }
    }
}

/// The directories that stand directly below the storage directory.
pub open spec fn spec_backup_storage_subdirs(storage_dir: Seq<char>) -> Seq<Seq<char>> {
    seq![
        spec_join(storage_dir, "archive"@),
        spec_join(storage_dir, "full"@),
        spec_join(storage_dir, "incremental"@),
        spec_join(storage_dir, "logs"@),
    ]
}

/// The texts of a list of strings.
pub open spec fn path_texts(v: Seq<String>) -> Seq<Seq<char>> {
    v.map_values(|s: String| s@)
}

/// The directories that stand directly below the storage directory.
pub fn backup_storage_subdirs(backup_storage_dir: &str) -> (r: Vec<String>)
    ensures
        path_texts(r@) == spec_backup_storage_subdirs(backup_storage_dir@),
{
    let mut r: Vec<String> = Vec::new();
    r.push(join(backup_storage_dir, BACKUP_ARCHIVE_DIRNAME));
    r.push(join(backup_storage_dir, BACKUP_FULL_DIRNAME));
    r.push(join(backup_storage_dir, BACKUP_INCREMENTAL_DIRNAME));
    r.push(join(backup_storage_dir, BACKUP_LOGS_DIRNAME));
    assert(path_texts(r@) =~= spec_backup_storage_subdirs(backup_storage_dir@));
    r
}

/// Where the contents of a backup run stand:
/// `<storage>/<full or incremental>/<host>/<user>/<run>`.
pub open spec fn spec_backup_path(
    storage_dir: Seq<char>,
    backup_type: BackupType,
    run_name: BackupRunNameView,
) -> Seq<char> {
    spec_join(
        spec_join(
            spec_join(spec_join(storage_dir, backup_type.spec_subdir_name()), run_name.hostname),
            run_name.username,
        ),
        run_name.spec_to_string(),
    )
}

/// Where the archive of a backup run stands: `<storage>/archive/<run>.tar.xz`.
pub open spec fn spec_archive_path(storage_dir: Seq<char>, run_name: BackupRunNameView) -> Seq<
    char,
> {
    spec_append_extension(
        spec_join(spec_join(storage_dir, "archive"@), run_name.spec_to_string()),
        "tar.xz"@,
    )
}

/// Where the log of a backup run stands: `<storage>/logs/<run>`.
pub open spec fn spec_log_path(storage_dir: Seq<char>, run_name: BackupRunNameView) -> Seq<char> {
    spec_join(spec_join(storage_dir, "logs"@), run_name.spec_to_string())
}

/// Where the contents of a backup run stand.
pub fn backup_path(storage_dir: &str, backup_type: BackupType, run_name: &BackupRunName) -> (r:
    String)
    ensures
        r@ == spec_backup_path(storage_dir@, backup_type, run_name@),
{
    let a = join(storage_dir, backup_type.subdir_name());
    let b = join(a.as_str(), run_name.hostname.as_str());
    let c = join(b.as_str(), run_name.username.as_str());
    let name = run_name.to_string();
    join(c.as_str(), name.as_str())
}

/// Where the archive of a backup run stands.
pub fn archive_path(storage_dir: &str, run_name: &BackupRunName) -> (r: String)
    ensures
        r@ == spec_archive_path(storage_dir@, run_name@),
{
    let a = join(storage_dir, BACKUP_ARCHIVE_DIRNAME);
    let name = run_name.to_string();
    let b = join(a.as_str(), name.as_str());
    append_extension(b.as_str(), TAR_XZ_EXTENSION)
}

/// Where the log of a backup run stands.
pub fn log_path(storage_dir: &str, run_name: &BackupRunName) -> (r: String)
    ensures
        r@ == spec_log_path(storage_dir@, run_name@),
{
    let a = join(storage_dir, BACKUP_LOGS_DIRNAME);
    let name = run_name.to_string();
    join(a.as_str(), name.as_str())
}

/// What tells the backups of one kind, host, user and backup from all
/// others.
#[derive(Debug)]
pub struct BackupPathParts {
    pub backup_type: BackupType,
    pub hostname: String,
    pub username: String,
    pub backup_name: String,
}

impl BackupPathParts {
    /// The parts for the backups of `backup_name` of kind `backup_type`
    /// made by `username` on `hostname`.
    pub fn new(backup_type: BackupType, hostname: &str, username: &str, backup_name: &str) -> (r:
        Self)
        ensures
            r.backup_type == backup_type,
            r.hostname@ == hostname@,
            r.username@ == username@,
            r.backup_name@ == backup_name@,
    {
        BackupPathParts {
            backup_type,
            hostname: String::from_str(hostname),
            username: String::from_str(username),
            backup_name: String::from_str(backup_name),
        }
    }

    /// The parts for the backups of kind `backup_type` that the run
    /// `run_name` belongs to.
    pub fn from_run(backup_type: BackupType, run_name: &BackupRunName) -> (r: Self)
        ensures
            r.backup_type == backup_type,
            r.hostname@ == run_name.hostname@,
            r.username@ == run_name.username@,
            r.backup_name@ == run_name.backup_name@,
    {
        BackupPathParts {
            backup_type,
            hostname: run_name.hostname.clone(),
            username: run_name.username.clone(),
            backup_name: run_name.backup_name.clone(),
        }
    }
}

/// A path of the storage tree or of the configuration, with what it was
/// made from.
#[derive(Debug)]
pub enum Bak9Path {
    StorageDir(String),
    BackupDir { storage_dir: String, path_parts: BackupPathParts, path: String },
    FullBackup { storage_dir: String, run_name: BackupRunName, path: String },
    IncrementalBackup { storage_dir: String, run_name: BackupRunName, path: String },
    Archive { storage_dir: String, run_name: BackupRunName, path: String },
    Log { storage_dir: String, run_name: BackupRunName, path: String },
    UserConfig { home_dir: String, path: String },
    FileSytemVersion { storage_dir: String, path: String },
}

/// One thing to do so that a path can be used.
#[derive(Debug)]
pub enum SetupStep {
    /// Create the directory and every directory above it that is missing.
    CreateDir { path: String },
    /// Write the file with this content, unless it exists.
    WriteIfMissing { path: String, content: String },
}

/// A step as mathematical data.
pub enum SetupStepView {
    CreateDir { path: Seq<char> },
    WriteIfMissing { path: Seq<char>, content: Seq<char> },
}

impl View for SetupStep {
    type V = SetupStepView;

    open spec fn view(&self) -> SetupStepView {
        match *self {
            SetupStep::CreateDir { path } => SetupStepView::CreateDir { path: path@ },
            SetupStep::WriteIfMissing { path, content } => SetupStepView::WriteIfMissing {
                path: path@,
                content: content@,
            },
        }
    }
}

/// The views of a list of steps.
pub open spec fn step_views(steps: Seq<SetupStep>) -> Seq<SetupStepView> {
    steps.map_values(|s: SetupStep| s@)
}

/// Where the configuration of a user stands: `<home>/.config/bak9/bak9.toml`.
pub open spec fn spec_user_config_path(home_dir: Seq<char>) -> Seq<char> {
    spec_join(spec_join(home_dir, ".config/bak9"@), "bak9.toml"@)
}

/// Where the directory of the backups of one kind, host and user stands:
/// `<storage>/<full or incremental>/<host>/<user>`.
pub open spec fn spec_backup_dir_path(
    storage_dir: Seq<char>,
    backup_type: BackupType,
    hostname: Seq<char>,
    username: Seq<char>,
) -> Seq<char> {
    spec_join(spec_join(spec_join(storage_dir, backup_type.spec_subdir_name()), hostname), username)
}

/// What is told where the storage directory is missing.
pub open spec fn no_storage_dir() -> Seq<char> {
    "Backup storage directory does not exist"@
}

/// What is told where a path stands in no directory.
pub open spec fn no_directory() -> Seq<char> {
    "Unable to determine user config directory"@
}

impl Bak9Path {
    /// The path itself.
    pub open spec fn spec_path(&self) -> Seq<char> {
        match *self {
            Bak9Path::StorageDir(path) => path@,
            Bak9Path::BackupDir { path, .. } => path@,
            Bak9Path::FullBackup { path, .. } => path@,
            Bak9Path::IncrementalBackup { path, .. } => path@,
            Bak9Path::Archive { path, .. } => path@,
            Bak9Path::Log { path, .. } => path@,
            Bak9Path::UserConfig { path, .. } => path@,
            Bak9Path::FileSytemVersion { path, .. } => path@,
        }
    }

    /// The storage directory that the path belongs to, if it belongs to one
    /// and is not the storage directory itself.
    pub open spec fn spec_storage_dir(&self) -> Option<Seq<char>> {
        match *self {
            Bak9Path::BackupDir { storage_dir, .. } => Some(storage_dir@),
            Bak9Path::FullBackup { storage_dir, .. } => Some(storage_dir@),
            Bak9Path::IncrementalBackup { storage_dir, .. } => Some(storage_dir@),
            Bak9Path::Archive { storage_dir, .. } => Some(storage_dir@),
            Bak9Path::Log { storage_dir, .. } => Some(storage_dir@),
            Bak9Path::FileSytemVersion { storage_dir, .. } => Some(storage_dir@),
            _ => None,
        }
    }

    /// The name of the run that the path belongs to, if it belongs to one.
    pub open spec fn spec_run_name(&self) -> Option<BackupRunNameView> {
        match *self {
            Bak9Path::FullBackup { run_name, .. } => Some(run_name@),
            Bak9Path::IncrementalBackup { run_name, .. } => Some(run_name@),
            Bak9Path::Archive { run_name, .. } => Some(run_name@),
            Bak9Path::Log { run_name, .. } => Some(run_name@),
            _ => None,
        }
    }

    /// The storage directory.
    pub fn storage_dir(storage_dir: &str) -> (r: Self)
        ensures
            r is StorageDir,
            r.spec_path() == storage_dir@,
    {
        Bak9Path::StorageDir(String::from_str(storage_dir))
    }

    /// Where the full backup of the run stands.
    pub fn full_backup(storage_dir: &str, run_name: &BackupRunName) -> (r: Self)
        ensures
            r is FullBackup,
            r.spec_path() == spec_backup_path(storage_dir@, BackupType::Full, run_name@),
            r.spec_storage_dir() == Some(storage_dir@),
            r.spec_run_name() == Some(run_name@),
    {
        Bak9Path::FullBackup {
            storage_dir: String::from_str(storage_dir),
            path: backup_path(storage_dir, BackupType::Full, run_name),
            run_name: run_name.clone(),
        }
    }

    /// Where the incremental backup of the run stands.
    pub fn incremental_backup(storage_dir: &str, run_name: &BackupRunName) -> (r: Self)
        ensures
            r is IncrementalBackup,
            r.spec_path() == spec_backup_path(storage_dir@, BackupType::Incremental, run_name@),
            r.spec_storage_dir() == Some(storage_dir@),
            r.spec_run_name() == Some(run_name@),
    {
        Bak9Path::IncrementalBackup {
            storage_dir: String::from_str(storage_dir),
            path: backup_path(storage_dir, BackupType::Incremental, run_name),
            run_name: run_name.clone(),
        }
    }

    /// Where the backup of kind `backup_type` of the run stands.
    pub fn backup(storage_dir: &str, backup_type: BackupType, run_name: &BackupRunName) -> (r: Self)
        ensures
            r.spec_path() == spec_backup_path(storage_dir@, backup_type, run_name@),
            r.spec_storage_dir() == Some(storage_dir@),
            r.spec_run_name() == Some(run_name@),
            backup_type == BackupType::Full ==> r is FullBackup,
            backup_type == BackupType::Incremental ==> r is IncrementalBackup,
    {
        match backup_type {
            BackupType::Full => Self::full_backup(storage_dir, run_name),
            BackupType::Incremental => Self::incremental_backup(storage_dir, run_name),
        }
    }

    /// Where the backups of the kind, host and user of `path_parts` stand.
    pub fn backup_dir(storage_dir: &str, path_parts: BackupPathParts) -> (r: Self)
        ensures
            r is BackupDir,
            r.spec_path() == spec_backup_dir_path(
                storage_dir@,
                path_parts.backup_type,
                path_parts.hostname@,
                path_parts.username@,
            ),
            r.spec_storage_dir() == Some(storage_dir@),
    {
        let a = join(storage_dir, path_parts.backup_type.subdir_name());
        let b = join(a.as_str(), path_parts.hostname.as_str());
        let path = join(b.as_str(), path_parts.username.as_str());
        Bak9Path::BackupDir { storage_dir: String::from_str(storage_dir), path, path_parts }
    }

    /// Where the archive of the run stands.
    pub fn archive(storage_dir: &str, run_name: &BackupRunName) -> (r: Self)
        ensures
            r is Archive,
            r.spec_path() == spec_archive_path(storage_dir@, run_name@),
            r.spec_storage_dir() == Some(storage_dir@),
            r.spec_run_name() == Some(run_name@),
    {
        Bak9Path::Archive {
            storage_dir: String::from_str(storage_dir),
            path: archive_path(storage_dir, run_name),
            run_name: run_name.clone(),
        }
    }

    /// Where the log of the run stands.
    pub fn log(storage_dir: &str, run_name: &BackupRunName) -> (r: Self)
        ensures
            r is Log,
            r.spec_path() == spec_log_path(storage_dir@, run_name@),
            r.spec_storage_dir() == Some(storage_dir@),
            r.spec_run_name() == Some(run_name@),
    {
        Bak9Path::Log {
            storage_dir: String::from_str(storage_dir),
            path: log_path(storage_dir, run_name),
            run_name: run_name.clone(),
        }
    }

    /// Where the configuration of the user with the home directory
    /// `home_dir` stands.
    pub fn user_config(home_dir: &str) -> (r: Self)
        ensures
            r is UserConfig,
            r.spec_path() == spec_user_config_path(home_dir@),
    {
        let dir = join(home_dir, HOME_CONFIG_DIR);
        Bak9Path::UserConfig {
            home_dir: String::from_str(home_dir),
            path: join(dir.as_str(), BAK9_CONFIG_FILENAME),
        }
    }

    /// Where the version of the layout of the storage tree stands.
    pub fn fs_version(storage_dir: &str) -> (r: Self)
        ensures
            r is FileSytemVersion,
            r.spec_path() == spec_join(storage_dir@, ".bak9_fs_version"@),
            r.spec_storage_dir() == Some(storage_dir@),
    {
        Bak9Path::FileSytemVersion {
            storage_dir: String::from_str(storage_dir),
            path: join(storage_dir, BAK9_FS_VERSION_FILENAME),
        }
    }

    /// The path itself.
    pub fn as_path(&self) -> (r: &str)
        ensures
            r@ == self.spec_path(),
    {
        match self {
            Bak9Path::StorageDir(path) => path.as_str(),
            Bak9Path::BackupDir { path, .. } => path.as_str(),
            Bak9Path::FullBackup { path, .. } => path.as_str(),
            Bak9Path::IncrementalBackup { path, .. } => path.as_str(),
            Bak9Path::Archive { path, .. } => path.as_str(),
            Bak9Path::Log { path, .. } => path.as_str(),
            Bak9Path::UserConfig { path, .. } => path.as_str(),
            Bak9Path::FileSytemVersion { path, .. } => path.as_str(),
        }
    }

    /// The path itself, as a string of its own.
    pub fn to_path_buf(&self) -> (r: String)
        ensures
            r@ == self.spec_path(),
    {
        String::from_str(self.as_path())
    }

    /// The name of the run that the path belongs to, if it belongs to one.
    pub fn backup_run_name(&self) -> (r: Option<&BackupRunName>)
        ensures
            match r {
                Some(name) => self.spec_run_name() == Some(name@),
                None => self.spec_run_name() is None,
            },
    {
        match self {
            Bak9Path::FullBackup { run_name, .. } => Some(run_name),
            Bak9Path::IncrementalBackup { run_name, .. } => Some(run_name),
            Bak9Path::Archive { run_name, .. } => Some(run_name),
            Bak9Path::Log { run_name, .. } => Some(run_name),
            _ => None,
        }
    }

    /// What is to be done once so that the path can be used, whatever has
    /// been done before: for the storage directory, create it with its
    /// four directories and write the version `fs_version` of the layout;
    /// for the configuration of a user, create its directory and write
    /// `config_defaults`; for the version of the layout, write it. No step
    /// changes what exists.
    pub open spec fn spec_setup(&self, config_defaults: Seq<char>, fs_version: Seq<char>) -> Result<
        Seq<SetupStepView>,
        ErrorView,
    > {
        match *self {
            Bak9Path::StorageDir(path) => Ok(
                seq![
                    SetupStepView::CreateDir { path: path@ },
                    SetupStepView::CreateDir { path: spec_join(path@, "archive"@) },
                    SetupStepView::CreateDir { path: spec_join(path@, "full"@) },
                    SetupStepView::CreateDir { path: spec_join(path@, "incremental"@) },
                    SetupStepView::CreateDir { path: spec_join(path@, "logs"@) },
                    SetupStepView::WriteIfMissing {
                        path: spec_join(path@, ".bak9_fs_version"@),
                        content: fs_version,
                    },
                ],
            ),
            Bak9Path::UserConfig { path, .. } => match spec_parent(path@) {
                Some(dir) => Ok(
                    seq![
                        SetupStepView::CreateDir { path: dir },
                        SetupStepView::WriteIfMissing { path: path@, content: config_defaults },
                    ],
                ),
                None => Err(
                    ErrorView::FileIO { message: no_directory(), path: path@, cause: None },
                ),
            },
            Bak9Path::FileSytemVersion { path, .. } => Ok(
                seq![SetupStepView::WriteIfMissing { path: path@, content: fs_version }],
            ),
            _ => Ok(Seq::empty()),
        }
    }

    /// What is to be done once so that the path can be used.
    pub fn setup(&self, config_defaults: &str, fs_version: &str) -> (r: Result<
        Vec<SetupStep>,
        Error,
    >)
        ensures
            match r {
                Ok(steps) => self.spec_setup(config_defaults@, fs_version@) == Ok::<
                    Seq<SetupStepView>,
                    ErrorView,
                >(step_views(steps@)),
                Err(e) => self.spec_setup(config_defaults@, fs_version@) == Err::<
                    Seq<SetupStepView>,
                    ErrorView,
                >(e@),
            },
    {
        let mut steps: Vec<SetupStep> = Vec::new();
        match self {
            Bak9Path::StorageDir(path) => {
                steps.push(SetupStep::CreateDir { path: path.clone() });
                steps.push(SetupStep::CreateDir { path: join(path.as_str(), BACKUP_ARCHIVE_DIRNAME) });
                steps.push(SetupStep::CreateDir { path: join(path.as_str(), BACKUP_FULL_DIRNAME) });
                steps.push(
                    SetupStep::CreateDir { path: join(path.as_str(), BACKUP_INCREMENTAL_DIRNAME) },
                );
                steps.push(SetupStep::CreateDir { path: join(path.as_str(), BACKUP_LOGS_DIRNAME) });
                steps.push(
                    SetupStep::WriteIfMissing {
                        path: join(path.as_str(), BAK9_FS_VERSION_FILENAME),
                        content: String::from_str(fs_version),
                    },
                );
                assert(step_views(steps@) =~= self.spec_setup(config_defaults@, fs_version@)->Ok_0);
            },
            Bak9Path::UserConfig { path, .. } => {
                let dir = match parent(path.as_str()) {
                    Some(dir) => dir,
                    None => {
                        return Err(
                            Error::file_io_err(
                                path.as_str(),
                                "Unable to determine user config directory",
                            ),
                        );
                    },
                };
                steps.push(SetupStep::CreateDir { path: dir });
                steps.push(
                    SetupStep::WriteIfMissing {
                        path: path.clone(),
                        content: String::from_str(config_defaults),
                    },
                );
                assert(step_views(steps@) =~= self.spec_setup(config_defaults@, fs_version@)->Ok_0);
            },
            Bak9Path::FileSytemVersion { path, .. } => {
                steps.push(
                    SetupStep::WriteIfMissing {
                        path: path.clone(),
                        content: String::from_str(fs_version),
                    },
                );
                assert(step_views(steps@) =~= self.spec_setup(config_defaults@, fs_version@)->Ok_0);
            },
            _ => {
                assert(step_views(steps@) =~= Seq::<SetupStepView>::empty());
            },
        }
        Ok(steps)
    }

    /// The directory to create before a job puts something at the path,
    /// `storage_dir_exists` and `path_exists` saying what is there: none
    /// where the path exists or needs no directory; for the directory of
    /// backups, the path itself; else the directory that holds the path.
    /// It is an error where the storage directory is missing. Nothing is
    /// ever deleted or renamed.
    pub open spec fn spec_prepare(&self, storage_dir_exists: bool, path_exists: bool) -> Result<
        Option<Seq<char>>,
        ErrorView,
    > {
        match *self {
            Bak9Path::BackupDir { storage_dir, path, .. } => if !storage_dir_exists {
                Err(
                    ErrorView::FileIO {
                        message: no_storage_dir(),
                        path: storage_dir@,
                        cause: None,
                    },
                )
            } else if path_exists {
                Ok(None)
            } else {
                Ok(Some(path@))
            },
            Bak9Path::FullBackup { storage_dir, path, .. }
            | Bak9Path::IncrementalBackup { storage_dir, path, .. }
            | Bak9Path::Archive { storage_dir, path, .. } => if !storage_dir_exists {
                Err(
                    ErrorView::FileIO {
                        message: no_storage_dir(),
                        path: storage_dir@,
                        cause: None,
                    },
                )
            } else if path_exists {
                Ok(None)
            } else {
                match spec_parent(path@) {
                    Some(dir) => Ok(Some(dir)),
                    None => Err(
                        ErrorView::FileIO { message: no_directory(), path: path@, cause: None },
                    ),
                }
            },
            _ => Ok(None),
        }
    }

    /// The directory to create before a job puts something at the path.
    pub fn prepare(&self, storage_dir_exists: bool, path_exists: bool) -> (r: Result<
        Option<String>,
        Error,
    >)
        ensures
            match r {
                Ok(Some(dir)) => self.spec_prepare(storage_dir_exists, path_exists) == Ok::<
                    Option<Seq<char>>,
                    ErrorView,
                >(Some(dir@)),
                Ok(None) => self.spec_prepare(storage_dir_exists, path_exists) == Ok::<
                    Option<Seq<char>>,
                    ErrorView,
                >(None),
                Err(e) => self.spec_prepare(storage_dir_exists, path_exists) == Err::<
                    Option<Seq<char>>,
                    ErrorView,
                >(e@),
            },
    {
        let (storage_dir, path, is_dir) = match self {
            Bak9Path::BackupDir { storage_dir, path, .. } => (storage_dir, path, true),
            Bak9Path::FullBackup { storage_dir, path, .. } => (storage_dir, path, false),
            Bak9Path::IncrementalBackup { storage_dir, path, .. } => (storage_dir, path, false),
            Bak9Path::Archive { storage_dir, path, .. } => (storage_dir, path, false),
            _ => {
                return Ok(None);
            },
        };
        if !storage_dir_exists {
            return Err(
                Error::file_io_err(storage_dir.as_str(), "Backup storage directory does not exist"),
            );
        }
        if path_exists {
            return Ok(None);
        }
        if is_dir {
            return Ok(Some(path.clone()));
        }
        match parent(path.as_str()) {
            Some(dir) => Ok(Some(dir)),
            None => Err(
                Error::file_io_err(path.as_str(), "Unable to determine user config directory"),
            ),
        }
    }
}

/// What is told where no home directory is known.
pub open spec fn no_home() -> Seq<char> {
    "Environment variable is not set: $HOME"@
}

/// The home directory: `bak9_home`, the value of `BAK9_HOME`, where it is
/// set; else `home`, the value of `HOME`; it is an error where neither is
/// set.
pub fn home_dir(bak9_home: Option<&str>, home: Option<&str>) -> (r: Result<String, Error>)
    ensures
        match r {
            Ok(dir) => match bak9_home {
                Some(value) => dir@ == value@,
                None => home matches Some(value) && dir@ == value@,
            },
            Err(e) => bak9_home is None && home is None && e@ == (ErrorView::FileIO {
                message: no_home(),
                path: "$HOME"@,
                cause: None,
            }),
        },
{
    match bak9_home {
        Some(value) => Ok(String::from_str(value)),
        None => match home {
            Some(value) => Ok(String::from_str(value)),
            None => Err(
                Error::FileIO {
                    message: String::from_str("Environment variable is not set: $HOME"),
                    path: String::from_str("$HOME"),
                    cause: None,
                },
            ),
        },
    }
}

/// The path of a configuration file, as it was given.
pub fn config_path(path_str: &str) -> (r: String)
    ensures
        r@ == path_str@,
{
    String::from_str(path_str)
}

/// Whether `is_there` was asked about `path` and gave `answer`.
pub open spec fn said<F: Fn(&str) -> bool>(is_there: &F, path: Seq<char>, answer: bool) -> bool {
    exists|asked: &str| asked@ == path && #[trigger] call_ensures(is_there, (asked,), answer)
}

/// Checks that the storage directory and the four directories below it
/// exist, asking `is_there` about each in turn. The error names the first
/// that is missing.
pub fn verify_backup_dirs<F: Fn(&str) -> bool>(backup_storage_dir: &str, is_there: &F) -> (r: Result<
    (),
    Error,
>)
    requires
        forall|path: &str| call_requires(is_there, (path,)),
    ensures
        match r {
            Ok(_) => said(is_there, backup_storage_dir@, true) && forall|i: int|
                0 <= i < 4 ==> said(is_there,
                    #[trigger] spec_backup_storage_subdirs(backup_storage_dir@)[i],
                    true,
                ),
            Err(e) => (said(is_there, backup_storage_dir@, false) && e@
                == (ErrorView::ConfiguredDirNotFound {
                path: backup_storage_dir@,
                config_key: "backup_storage_dir"@,
            })) || (said(is_there, backup_storage_dir@, true) && exists|k: int|
                0 <= k < 4 && (forall|i: int|
                    0 <= i < k ==> said(is_there,
                        #[trigger] spec_backup_storage_subdirs(backup_storage_dir@)[i],
                        true,
                    )) && said(is_there,
                    #[trigger] spec_backup_storage_subdirs(backup_storage_dir@)[k],
                    false,
                ) && e@ == (ErrorView::ConfiguredSubdirNotFound {
                    path: spec_backup_storage_subdirs(backup_storage_dir@)[k],
                    config_key: "backup_storage_dir"@,
                })),
        },
{
    if !is_there(backup_storage_dir) {
        return Err(Error::configured_dir(backup_storage_dir, "backup_storage_dir"));
    }
    let subdirs = backup_storage_subdirs(backup_storage_dir);
    let ghost wanted = spec_backup_storage_subdirs(backup_storage_dir@);
    assert(subdirs@.len() == 4) by {
        assert(path_texts(subdirs@).len() == 4);
    }
    let mut i: usize = 0;
    while i < 4
        invariant
            i <= 4,
            subdirs@.len() == 4,
            wanted == spec_backup_storage_subdirs(backup_storage_dir@),
            path_texts(subdirs@) == wanted,
            said(is_there, backup_storage_dir@, true),
            forall|path: &str| call_requires(is_there, (path,)),
            forall|j: int| 0 <= j < i ==> said(is_there, #[trigger] wanted[j], true),
        decreases 4 - i,
    {
        assert(wanted[i as int] == subdirs@[i as int]@);
        if !is_there(subdirs[i].as_str()) {
            assert(said(is_there, wanted[i as int], false));
            return Err(Error::configured_subdir(subdirs[i].as_str(), "backup_storage_dir"));
        }
        assert(said(is_there, wanted[i as int], true));
        i += 1;
    }
    Ok(())
}

} // verus!
