use bak9::config::{
    default_schedules, insert_number, sort_numbers, BackupConfig, BackupConfigArchive,
    BackupConfigBackup, BackupConfigRemote, BackupConfigRemoteGroup, BackupConfigSchedule,
    BackupConfigSync, DayOfWeek,
};
use bak9::error::Error;

fn schedule(name: &str) -> BackupConfigSchedule {
    BackupConfigSchedule {
        name: name.to_string(),
        minute: None,
        minutes: None,
        hour: None,
        hours: None,
        day_of_week: None,
        days_of_week: None,
        day_of_month: None,
        days_of_month: None,
        month: None,
        months: None,
    }
}

fn remote(name: &str, host: &str, user: Option<&str>, dir: &str) -> BackupConfigRemote {
    BackupConfigRemote {
        name: name.to_string(),
        host: host.to_string(),
        user: user.map(String::from),
        backup_storage_dir: dir.to_string(),
    }
}

fn sync(remote: Option<&str>, group: Option<&str>) -> BackupConfigSync {
    BackupConfigSync {
        remote: remote.map(String::from),
        remote_group: group.map(String::from),
        sync_full: true,
        sync_incremental: true,
        sync_archive: true,
    }
}

/// The sample configuration: one backup with two archive rules and two
/// sync rules, three remotes and one group.
fn sample() -> BackupConfig {
    BackupConfig {
        backup_storage_dir: "/storage/backup".to_string(),
        schedules: vec![],
        backups: vec![BackupConfigBackup {
            name: "home".to_string(),
            source_dir: "$HOME".to_string(),
            full_schedule: "monthly".to_string(),
            incremental_schedule: "daily".to_string(),
            max_full: 4,
            archives: vec![
                BackupConfigArchive { schedule: "quarterly".to_string(), max_archives: 5 },
                BackupConfigArchive { schedule: "annual".to_string(), max_archives: 4 },
            ],
            syncs: vec![sync(None, Some("roam")), sync(Some("cloud"), None)],
        }],
        remotes: vec![
            remote("laptop1", "laptop1.local", None, "/storage/backup"),
            remote("desktop1", "desktop.local", None, "/storage/backup"),
            remote("cloud", "cloud.local", Some("backup"), "/home/$REMOTE_USER/backup"),
        ],
        remote_groups: vec![BackupConfigRemoteGroup {
            name: "roam".to_string(),
            remotes: vec!["laptop1".to_string(), "desktop1".to_string()],
        }],
    }
}

#[test]
fn numbers_are_sorted_ascending() {
    assert_eq!(sort_numbers(&vec![10, 1, 7, 4, 7, 0]), vec![0, 1, 4, 7, 7, 10]);
    assert_eq!(sort_numbers(&vec![]), Vec::<u8>::new());
    let mut v = vec![1, 3, 5];
    insert_number(&mut v, 4);
    insert_number(&mut v, 0);
    insert_number(&mut v, 9);
    insert_number(&mut v, 3);
    assert_eq!(v, vec![0, 1, 3, 3, 4, 5, 9]);
}

#[test]
fn cron_expression_of_an_open_schedule() {
    assert_eq!(schedule("open").to_cron_expression(), "0 * * * * * *");
}

#[test]
fn cron_expression_of_single_values() {
    let mut s = schedule("single");
    s.minute = Some(30);
    s.hour = Some(2);
    s.day_of_month = Some(15);
    s.month = Some(6);
    s.day_of_week = Some(DayOfWeek::Saturday);
    assert_eq!(s.to_cron_expression(), "0 30 2 15 6 6 *");
    s.day_of_week = Some(DayOfWeek::Sunday);
    assert_eq!(s.to_cron_expression(), "0 30 2 15 6 0 *");
}

#[test]
fn cron_expression_of_lists_is_sorted() {
    let mut s = schedule("lists");
    s.minutes = Some(vec![45, 0, 15, 30]);
    s.hours = Some(vec![18, 6]);
    s.days_of_month = Some(vec![28, 1, 14]);
    s.months = Some(vec![10, 1, 7, 4]);
    s.days_of_week = Some(vec![DayOfWeek::Friday, DayOfWeek::Monday, DayOfWeek::Wednesday]);
    assert_eq!(s.to_cron_expression(), "0 0,15,30,45 6,18 1,14,28 1,4,7,10 1,3,5 *");
    s.minutes = Some(vec![200]);
    s.minute = Some(1);
    assert_eq!(s.to_cron_expression(), "0 200 6,18 1,14,28 1,4,7,10 1,3,5 *");
    s.minutes = Some(vec![]);
    assert_eq!(s.to_cron_expression(), "0  6,18 1,14,28 1,4,7,10 1,3,5 *");
}

#[test]
fn cron_expressions_of_the_default_schedules() {
    let expressions: Vec<(String, String)> = default_schedules()
        .iter()
        .map(|s| (s.name.clone(), s.to_cron_expression()))
        .collect();
    assert_eq!(
        expressions,
        vec![
            ("daily".to_string(), "0 0 0 * * * *".to_string()),
            ("weekly".to_string(), "0 0 0 * * 0 *".to_string()),
            ("monthly".to_string(), "0 0 0 1 * * *".to_string()),
            ("quarterly".to_string(), "0 0 0 1 1,4,7,10 * *".to_string()),
            ("annual".to_string(), "0 0 0 1 1 * *".to_string()),
        ]
    );
}

#[test]
fn a_schedule_with_a_value_and_a_list_is_refused() {
    assert_eq!(schedule("ok").validate_schema(), Ok(()));
    let mut s = schedule("bad");
    s.minute = Some(1);
    s.minutes = Some(vec![1]);
    assert_eq!(s.validate_schema(), Err("'minute' and 'minutes' are mutually exclusive".to_string()));
    s.hour = Some(1);
    s.hours = Some(vec![1]);
    assert_eq!(s.validate_schema(), Err("'hour' and 'hours' are mutually exclusive".to_string()));
    s.day_of_week = Some(DayOfWeek::Monday);
    s.days_of_week = Some(vec![]);
    assert_eq!(
        s.validate_schema(),
        Err("'day_of_week' and 'days_of_week' are mutually exclusive".to_string())
    );
    s.day_of_month = Some(1);
    s.days_of_month = Some(vec![1]);
    assert_eq!(
        s.validate_schema(),
        Err("'day_of_month' and 'days_of_month' are mutually exclusive".to_string())
    );
    s.month = Some(1);
    s.months = Some(vec![1]);
    assert_eq!(s.validate_schema(), Err("'month' and months are mutually exclusive".to_string()));
}

#[test]
fn a_sync_rule_names_a_remote_or_a_group() {
    assert_eq!(sync(Some("a"), None).validate_schema(), Ok(()));
    assert_eq!(sync(None, Some("g")).validate_schema(), Ok(()));
    assert_eq!(
        sync(None, None).validate_schema(),
        Err("either `remote` or `remote_group` must be set".to_string())
    );
    assert_eq!(
        sync(Some("a"), Some("g")).validate_schema(),
        Err("`remote` and `remote_group` are mutually exclusive".to_string())
    );
}

const TEST_CONFIG_BACKUP_DIR: &str = "$CARGO_TARGET_TMPDIR/strg/backup";

/// The configuration of the user `testusr`.
fn testusr_config() -> BackupConfig {
    BackupConfig {
        backup_storage_dir: TEST_CONFIG_BACKUP_DIR.to_string(),
        schedules: vec![],
        backups: vec![BackupConfigBackup {
            name: "home-testusr".to_string(),
            source_dir: "$HOME".to_string(),
            full_schedule: "monthly".to_string(),
            incremental_schedule: "daily".to_string(),
            max_full: 3,
            archives: vec![
                BackupConfigArchive { schedule: "quarterly".to_string(), max_archives: 4 },
                BackupConfigArchive { schedule: "annual".to_string(), max_archives: 3 },
            ],
            syncs: vec![],
        }],
        remotes: vec![],
        remote_groups: vec![],
    }
}

#[test]
fn test_read_config() {
    let config = testusr_config();
    assert_eq!(config.backup_storage_dir, TEST_CONFIG_BACKUP_DIR);
    assert_eq!(config.backup("home-testusr").unwrap().archives.len(), 2);
    assert_eq!(config.backup("home-testusr").unwrap().archive("quarterly").unwrap().max_archives, 4);
    assert!(config.validate().is_ok());
}

#[test]
fn archives_are_found_by_their_schedule() {
    let config = sample();
    assert_eq!(config.backup_storage_dir, "/storage/backup");
    assert_eq!(config.backup("home").unwrap().archives.len(), 2);
    assert_eq!(config.backup("home").unwrap().archive("quarterly").unwrap().max_archives, 5);
    assert_eq!(config.backup("home").unwrap().archive("annual").unwrap().max_archives, 4);
    assert!(config.backup("home").unwrap().archive("weekly").is_err());
    assert!(config.backup("etc").is_err());
}

#[test]
fn test_parse_sample_config() {
    let config = sample();
    assert_eq!("/storage/backup", config.backup_storage_dir);
    assert_eq!(0, config.schedules.len());
    assert_eq!(1, config.backups.len());
    assert_eq!(3, config.remotes.len());
    assert_eq!(1, config.remote_groups.len());
    assert_eq!(2, config.backups[0].syncs.len());
    assert_eq!("desktop1", config.remotes[1].name);
    assert_eq!("roam", config.remote_groups[0].name);
    assert_eq!(config.remotes[1].name, config.remote_groups[0].remotes[1]);
    assert_eq!(config.backups[0].syncs[0].remote_group, Some(config.remote_groups[0].name.to_string()));
    assert_eq!(config.validate_schema(), Ok(()));
}

#[test]
fn test_default_schedule() {
    let mut config = sample();
    assert_eq!("monthly", config.schedule("monthly").unwrap().name);
    assert_eq!(1, config.schedule("monthly").unwrap().day_of_month.unwrap());

    // a configured schedule of the same name comes first
    let mut monthly = schedule("monthly");
    monthly.minute = Some(0);
    monthly.hour = Some(0);
    monthly.day_of_month = Some(2);
    config.schedules.push(monthly);
    assert_eq!("monthly", config.schedule("monthly").unwrap().name);
    assert_eq!(2, config.schedule("monthly").unwrap().day_of_month.unwrap());
    assert_eq!("weekly", config.schedule("weekly").unwrap().name);
}

#[test]
fn test_parse_config_errors() {
    let mut config = sample();
    config.remote_groups.push(BackupConfigRemoteGroup {
        name: "bad".to_string(),
        remotes: vec!["fail".to_string(), "desktop1".to_string()],
    });
    assert_eq!(
        config.validate_schema(),
        Err("remote_group['bad'].remote['fail']: Unknown remote `fail`".to_string())
    );
    let error = Error::ConfigParse { cause: format!("__all__: {}", config.validate_schema().unwrap_err()) };
    assert_eq!(
        error.to_string(),
        "Config parsing error :: __all__: remote_group['bad'].remote['fail']: Unknown remote `fail`"
    );
}

#[test]
fn what_is_not_configured_is_not_found() {
    let config = sample();
    for (error, schema, name) in [
        (config.remote("nas").unwrap_err(), "[remote]", "nas"),
        (config.remote_group("all").unwrap_err(), "[remote_group]", "all"),
        (config.schedule("hourly").unwrap_err(), "[schedule]", "hourly"),
        (config.backup("etc").unwrap_err(), "[backup]", "etc"),
        (config.backups[0].archive("monthly").unwrap_err(), "Archive", "home:monthly"),
    ] {
        match error {
            Error::ConfigReferenceNotFound { schema: s, name: n } => {
                assert_eq!(s, schema);
                assert_eq!(n, name);
            }
            other => panic!("{:?}", other),
        }
    }
    assert_eq!(config.remote("cloud").unwrap().host, "cloud.local");
    assert_eq!(config.remote_group("roam").unwrap().remotes.len(), 2);
}

#[test]
fn the_first_of_two_entries_of_one_name_is_found() {
    let mut config = sample();
    config.remotes.push(remote("cloud", "other.example", None, "/x"));
    assert_eq!(config.remote("cloud").unwrap().host, "cloud.local");
}

#[test]
fn a_sync_rule_resolves_to_its_remotes() {
    let config = sample();
    let of_group: Vec<&str> =
        sync(None, Some("roam")).remotes(&config).unwrap().iter().map(|r| r.name.as_str()).collect();
    assert_eq!(of_group, vec!["laptop1", "desktop1"]);
    let of_remote: Vec<&str> =
        sync(Some("cloud"), None).remotes(&config).unwrap().iter().map(|r| r.name.as_str()).collect();
    assert_eq!(of_remote, vec!["cloud"]);
    assert!(sync(None, None).remotes(&config).unwrap().is_empty());
    assert!(matches!(
        sync(Some("nas"), None).remotes(&config),
        Err(Error::ConfigReferenceNotFound { .. })
    ));
    assert!(matches!(
        sync(None, Some("all")).remotes(&config),
        Err(Error::ConfigReferenceNotFound { .. })
    ));
    let mut broken = sample();
    broken.remote_groups[0].remotes.push("nas".to_string());
    match sync(None, Some("roam")).remotes(&broken) {
        Err(Error::ConfigReferenceNotFound { schema, name }) => {
            assert_eq!(schema, "[remote]");
            assert_eq!(name, "nas");
        }
        other => panic!("{:?}", other.map(|v| v.len())),
    }
}

#[test]
fn days_of_the_week_count_from_sunday() {
    let days = [
        DayOfWeek::Sunday,
        DayOfWeek::Monday,
        DayOfWeek::Tuesday,
        DayOfWeek::Wednesday,
        DayOfWeek::Thursday,
        DayOfWeek::Friday,
        DayOfWeek::Saturday,
    ];
    for (number, day) in days.iter().enumerate() {
        assert_eq!(day.number() as usize, number);
    }
}

#[test]
fn a_copy_of_a_schedule_holds_the_same() {
    let mut s = schedule("lists");
    s.minutes = Some(vec![45, 0]);
    s.days_of_week = Some(vec![DayOfWeek::Friday]);
    s.month = Some(3);
    let copy = s.duplicate();
    assert_eq!(copy.name, "lists");
    assert_eq!(copy.minutes, Some(vec![45, 0]));
    assert_eq!(copy.days_of_week, Some(vec![DayOfWeek::Friday]));
    assert_eq!(copy.month, Some(3));
    assert_eq!(copy.to_cron_expression(), s.to_cron_expression());
}

#[test]
fn a_whole_configuration_is_checked() {
    assert!(sample().validate().is_ok());
    let cause = |config: &BackupConfig| match config.validate() {
        Err(Error::ConfigParse { cause }) => cause,
        other => panic!("{:?}", other),
    };
    let mut config = sample();
    config.backups[0].name = "my__home".to_string();
    assert_eq!(cause(&config), "backup['my__home'].name: must not contain `__`");
    let mut config = sample();
    config.backups[0].syncs.push(sync(None, None));
    assert_eq!(cause(&config), "backup['home'].sync: either `remote` or `remote_group` must be set");
    let mut config = sample();
    let mut s = schedule("odd");
    s.hour = Some(1);
    s.hours = Some(vec![2]);
    config.schedules.push(s);
    config.backups[0].name = "my__home".to_string();
    assert_eq!(cause(&config), "schedule['odd']: 'hour' and 'hours' are mutually exclusive");
    config.remote_groups[0].remotes.push("nas".to_string());
    assert_eq!(cause(&config), "__all__: remote_group['roam'].remote['nas']: Unknown remote `nas`");
}
