use bak9::error::Error;

#[test]
fn errors_tell_what_failed() {
    let cases = vec![
        (Error::config_file("/etc/bak9.toml", "bad"), "Config file error: /etc/bak9.toml :: bad"),
        (Error::new_config_file("/etc/bak9.toml", "bad"), "Config file error: /etc/bak9.toml :: bad"),
        (
            Error::new_config("/etc/bak9.toml", "[backup]", "no name"),
            "Config file error: /etc/bak9.toml :: no name :: [backup]",
        ),
        (Error::ConfigParse { cause: "line 3".to_string() }, "Config parsing error :: line 3"),
        (
            Error::DefaultConfigFileNotFound { path: "/h/.config/bak9/bak9.toml".to_string() },
            "Config file /h/.config/bak9/bak9.toml not found. Have you ran bak9 config yet?",
        ),
        (Error::ConfigFileNotFound { path: "/x".to_string() }, "Config file /x not found."),
        (Error::file_io("denied", "/storage", "Failed to create"), "Failed to create: /storage :: denied"),
        (Error::file_io_err("/storage", "Missing"), "Missing: /storage"),
        (Error::new_file_io("/storage", "denied"), "File IO error: /storage :: denied"),
        (
            Error::reference_not_found("[remote]", "nas"),
            "Config item nas not found for schema [remote]",
        ),
        (
            Error::configured_dir("/storage", "backup_storage_dir"),
            "Directory /storage not found. (config: backup_storage_dir)",
        ),
        (
            Error::configured_subdir("/storage/full", "backup_storage_dir"),
            "Subdirectory /storage/full not found. (config: backup_storage_dir)",
        ),
        (Error::rsync("no route"), "Failed to rsync: no route"),
        (Error::tar_xz("no space"), "Failed to tar xz: no space"),
        (Error::RunNameParse { name: "x".to_string() }, "Not the name of a backup run: x"),
        (Error::FullBackupNotFound { backup_name: "home".to_string() }, "No full backup found for home"),
        (Error::Generic("oops".to_string()), "oops"),
    ];
    for (error, message) in cases {
        assert_eq!(error.to_string(), message);
        assert_eq!(error.duplicate().to_string(), message);
    }
}
