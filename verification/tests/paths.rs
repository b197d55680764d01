use bak9::backup::BackupType;
use bak9::cli::{Cli, Command};
use bak9::config::{default_config_path, read_cli_config, read_config, select_config_path};
use bak9::error::Error;
use bak9::host::{expand_path, hostname, username};
use bak9::paths::{
    append_extension, archive_path, backup_path, backup_storage_subdirs, config_path, file_name,
    home_dir, join, log_path, parent, verify_backup_dirs, Bak9Path, BackupPathParts, SetupStep,
};
use bak9::run_name::BackupRunName;
use bak9::schedule::DateTime;

const RUN: &str = "2024-05-17-14-03-00-000__box__dev__home";

fn run_name() -> BackupRunName {
    BackupRunName::new(DateTime::new(2024, 5, 17, 14, 3, 0, 0).unwrap(), "box", "dev", "home")
}

#[test]
fn paths_are_joined_with_one_slash() {
    assert_eq!(join("/storage", "full"), "/storage/full");
    assert_eq!(join("/storage/", "full"), "/storage/full");
    assert_eq!(join("", "full"), "full");
    assert_eq!(join("/storage", "/etc"), "/etc");
    assert_eq!(join("/storage", ""), "/storage/");
    assert_eq!(join("/", "etc"), "/etc");
    assert_eq!(append_extension("run", "tar.xz"), "run.tar.xz");
    assert_eq!(append_extension("a.b", "bak"), "a.b.bak");
}

#[test]
fn the_directory_and_the_last_name_of_a_path() {
    assert_eq!(parent("/a/b/c"), Some("/a/b".to_string()));
    assert_eq!(parent("/a"), Some("/".to_string()));
    assert_eq!(parent("a"), Some(String::new()));
    assert_eq!(parent("a/b"), Some("a".to_string()));
    assert_eq!(parent("/"), None);
    assert_eq!(parent(""), None);
    assert_eq!(file_name("/a/b/c.txt"), "c.txt");
    assert_eq!(file_name("c.txt"), "c.txt");
    assert_eq!(file_name("/a/"), "");
}

#[test]
fn the_storage_tree() {
    assert_eq!(
        backup_storage_subdirs("/storage"),
        vec!["/storage/archive", "/storage/full", "/storage/incremental", "/storage/logs"]
    );
    assert_eq!(backup_path("/storage", BackupType::Full, &run_name()), format!("/storage/full/box/dev/{RUN}"));
    assert_eq!(
        backup_path("/storage", BackupType::Incremental, &run_name()),
        format!("/storage/incremental/box/dev/{RUN}")
    );
    assert_eq!(archive_path("/storage", &run_name()), format!("/storage/archive/{RUN}.tar.xz"));
    assert_eq!(log_path("/storage", &run_name()), format!("/storage/logs/{RUN}"));
    assert_eq!(BackupType::Full.subdir_name(), "full");
    assert_eq!(BackupType::Incremental.subdir_name(), "incremental");
}

#[test]
fn an_archive_keeps_the_dots_of_its_run_name() {
    let name = BackupRunName::new(DateTime::new(2024, 5, 17, 14, 3, 0, 0).unwrap(), "laptop1.local", "dev", "my.home");
    assert_eq!(
        archive_path("/storage", &name),
        "/storage/archive/2024-05-17-14-03-00-000__laptop1.local__dev__my.home.tar.xz"
    );
}

#[test]
fn paths_with_what_they_were_made_from() {
    let name = run_name();
    assert_eq!(Bak9Path::storage_dir("/storage").as_path(), "/storage");
    let full = Bak9Path::full_backup("/storage", &name);
    assert!(matches!(full, Bak9Path::FullBackup { .. }));
    assert_eq!(full.as_path(), format!("/storage/full/box/dev/{RUN}"));
    assert_eq!(full.backup_run_name().unwrap().to_string(), RUN);
    let incremental = Bak9Path::backup("/storage", BackupType::Incremental, &name);
    assert!(matches!(incremental, Bak9Path::IncrementalBackup { .. }));
    assert_eq!(incremental.to_path_buf(), format!("/storage/incremental/box/dev/{RUN}"));
    assert!(matches!(Bak9Path::backup("/storage", BackupType::Full, &name), Bak9Path::FullBackup { .. }));
    assert_eq!(Bak9Path::incremental_backup("/storage", &name).as_path(), format!("/storage/incremental/box/dev/{RUN}"));
    assert_eq!(Bak9Path::archive("/storage", &name).as_path(), format!("/storage/archive/{RUN}.tar.xz"));
    assert_eq!(Bak9Path::log("/storage", &name).as_path(), format!("/storage/logs/{RUN}"));
    assert_eq!(Bak9Path::user_config("/home/dev").as_path(), "/home/dev/.config/bak9/bak9.toml");
    assert_eq!(Bak9Path::fs_version("/storage").as_path(), "/storage/.bak9_fs_version");
    let parts = BackupPathParts::new(BackupType::Full, "box", "dev", "home");
    assert_eq!(parts.backup_name, "home");
    let dir = Bak9Path::backup_dir("/storage", parts);
    assert_eq!(dir.as_path(), "/storage/full/box/dev");
    assert!(dir.backup_run_name().is_none());
    let parts = BackupPathParts::from_run(BackupType::Incremental, &name);
    assert_eq!(parts.hostname, "box");
    assert_eq!(parts.username, "dev");
    assert_eq!(Bak9Path::backup_dir("/storage", parts).as_path(), "/storage/incremental/box/dev");
}

fn describe(steps: Vec<SetupStep>) -> Vec<String> {
    steps
        .into_iter()
        .map(|step| match step {
            SetupStep::CreateDir { path } => format!("mkdir {path}"),
            SetupStep::WriteIfMissing { path, content } => format!("write {path}: {content}"),
        })
        .collect()
}

#[test]
fn setup_creates_and_never_overwrites() {
    assert_eq!(
        describe(Bak9Path::storage_dir("/storage").setup("defaults", "1.0.0").unwrap()),
        vec![
            "mkdir /storage",
            "mkdir /storage/archive",
            "mkdir /storage/full",
            "mkdir /storage/incremental",
            "mkdir /storage/logs",
            "write /storage/.bak9_fs_version: 1.0.0",
        ]
    );
    assert_eq!(
        describe(Bak9Path::user_config("/home/dev").setup("defaults", "1.0.0").unwrap()),
        vec!["mkdir /home/dev/.config/bak9", "write /home/dev/.config/bak9/bak9.toml: defaults"]
    );
    assert_eq!(
        describe(Bak9Path::fs_version("/storage").setup("defaults", "1.0.0").unwrap()),
        vec!["write /storage/.bak9_fs_version: 1.0.0"]
    );
    assert!(Bak9Path::archive("/storage", &run_name()).setup("defaults", "1.0.0").unwrap().is_empty());
}

#[test]
fn prepare_creates_the_directory_of_a_run() {
    let name = run_name();
    let full = Bak9Path::full_backup("/storage", &name);
    assert_eq!(full.prepare(true, false).unwrap(), Some("/storage/full/box/dev".to_string()));
    assert_eq!(full.prepare(true, true).unwrap(), None);
    match full.prepare(false, false) {
        Err(Error::FileIO { message, path, cause }) => {
            assert_eq!(message, "Backup storage directory does not exist");
            assert_eq!(path, "/storage");
            assert_eq!(cause, None);
        }
        other => panic!("{:?}", other),
    }
    let archive = Bak9Path::archive("/storage", &name);
    assert_eq!(archive.prepare(true, false).unwrap(), Some("/storage/archive".to_string()));
    let dir = Bak9Path::backup_dir("/storage", BackupPathParts::new(BackupType::Full, "box", "dev", "home"));
    assert_eq!(dir.prepare(true, false).unwrap(), Some("/storage/full/box/dev".to_string()));
    assert_eq!(Bak9Path::storage_dir("/storage").prepare(false, false).unwrap(), None);
    assert_eq!(Bak9Path::log("/storage", &name).prepare(false, false).unwrap(), None);
}

#[test]
fn the_home_directory() {
    assert_eq!(home_dir(Some("/bak9"), Some("/home/dev")).unwrap(), "/bak9");
    assert_eq!(home_dir(None, Some("/home/dev")).unwrap(), "/home/dev");
    match home_dir(None, None) {
        Err(Error::FileIO { message, path, cause }) => {
            assert_eq!(message, "Environment variable is not set: $HOME");
            assert_eq!(path, "$HOME");
            assert_eq!(cause, None);
        }
        other => panic!("{:?}", other),
    }
    assert_eq!(config_path("/etc/bak9.toml"), "/etc/bak9.toml");
}

#[test]
fn the_directories_of_the_storage_tree_are_verified_in_order() {
    let all = |_: &str| true;
    assert!(verify_backup_dirs("/storage", &all).is_ok());
    let none = |_: &str| false;
    match verify_backup_dirs("/storage", &none) {
        Err(Error::ConfiguredDirNotFound { path, config_key }) => {
            assert_eq!(path, "/storage");
            assert_eq!(config_key, "backup_storage_dir");
        }
        other => panic!("{:?}", other),
    }
    let no_logs = |path: &str| !path.ends_with("incremental") && !path.ends_with("logs");
    match verify_backup_dirs("/storage", &no_logs) {
        Err(Error::ConfiguredSubdirNotFound { path, config_key }) => {
            assert_eq!(path, "/storage/incremental");
            assert_eq!(config_key, "backup_storage_dir");
        }
        other => panic!("{:?}", other),
    }
}

#[test]
fn the_configuration_file_to_read() {
    let there = |_: &str| true;
    let missing = |_: &str| false;
    assert_eq!(default_config_path("/home/dev"), "/home/dev/.config/bak9/bak9.toml");
    assert_eq!(read_config(Some("/etc/bak9.toml"), "/home/dev", &there).unwrap(), "/etc/bak9.toml");
    assert_eq!(read_config(None, "/home/dev", &there).unwrap(), "/home/dev/.config/bak9/bak9.toml");
    match read_config(Some("/etc/bak9.toml"), "/home/dev", &missing) {
        Err(Error::ConfigFileNotFound { path }) => assert_eq!(path, "/etc/bak9.toml"),
        other => panic!("{:?}", other),
    }
    match read_config(None, "/home/dev", &missing) {
        Err(Error::DefaultConfigFileNotFound { path }) => assert_eq!(path, "/home/dev/.config/bak9/bak9.toml"),
        other => panic!("{:?}", other),
    }
    let mut cli = Cli { config_file: None, force: false, quiet: false, subcommand: Command::Summary };
    assert_eq!(select_config_path(&cli, "/home/dev"), "/home/dev/.config/bak9/bak9.toml");
    assert_eq!(read_cli_config(&cli, "/home/dev", &there).unwrap(), "/home/dev/.config/bak9/bak9.toml");
    cli.config_file = Some("/etc/bak9.toml".to_string());
    assert_eq!(select_config_path(&cli, "/home/dev"), "/etc/bak9.toml");
    assert!(matches!(read_cli_config(&cli, "/home/dev", &missing), Err(Error::ConfigFileNotFound { .. })));
}

#[test]
fn what_the_machine_tells() {
    assert!(!username().is_empty());
    if let Some(name) = hostname() {
        assert!(!name.is_empty());
    }
    assert_eq!(expand_path("/storage/backup"), Some("/storage/backup".to_string()));
    assert_eq!(expand_path("$BAK9_NO_SUCH_VARIABLE_IS_SET/x"), None);
}

#[test]
fn test_setup_backup_dirs() {
    let mut created = std::collections::BTreeSet::new();
    for step in Bak9Path::storage_dir("/strg/backup").setup("", "1.0.0").unwrap() {
        if let SetupStep::CreateDir { path } = step {
            created.insert(path);
        }
    }
    assert!(created.contains("/strg/backup"));
    assert!(created.contains(&join("/strg/backup", "archive")));
    assert!(created.contains(&join("/strg/backup", "full")));
    assert!(created.contains(&join("/strg/backup", "incremental")));
    assert!(created.contains(&join("/strg/backup", "logs")));
}
