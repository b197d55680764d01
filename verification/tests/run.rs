use bak9::backup::BackupType;
use bak9::cli::{BackupCommand, ManualBackupCommand};
use bak9::config::{BackupConfig, BackupConfigBackup};
use bak9::error::Error;
use bak9::cmd::{Action, Outcome};
use bak9::job::{Job, JobOutput, JobQueueEntry};
use bak9::run::{
    machine_of, run_backup, run_backup_manual, run_backup_scheduled, BackupState, Machine,
};
use bak9::runner::run_jobs;
use bak9::schedule::DateTime;

fn backup(name: &str, source: &str) -> BackupConfigBackup {
    BackupConfigBackup {
        name: name.to_string(),
        source_dir: source.to_string(),
        full_schedule: "monthly".to_string(),
        incremental_schedule: "daily".to_string(),
        max_full: 4,
        archives: vec![],
        syncs: vec![],
    }
}

fn config() -> BackupConfig {
    BackupConfig {
        backup_storage_dir: "/storage".to_string(),
        schedules: vec![],
        backups: vec![backup("home", "/home/dev"), backup("etc", "/etc"), backup("var", "/var")],
        remotes: vec![],
        remote_groups: vec![],
    }
}

fn machine() -> Machine {
    Machine {
        now: DateTime::new(2024, 5, 17, 14, 3, 0, 0).unwrap(),
        hostname: "box".to_string(),
        username: "dev".to_string(),
        storage_dir: "/storage".to_string(),
    }
}

fn state(source: &str, full: &[&str], incremental: &[&str]) -> BackupState {
    BackupState {
        source_dir: source.to_string(),
        full_runs: full.iter().map(|s| s.to_string()).collect(),
        incremental_runs: incremental.iter().map(|s| s.to_string()).collect(),
    }
}

/// The kind, backup and source of the backup job of each series.
fn backups_of(queue: &[JobQueueEntry]) -> Vec<(BackupType, String, String, usize)> {
    queue
        .iter()
        .map(|entry| match entry {
            JobQueueEntry::Series(entries) => match &entries[0] {
                JobQueueEntry::Job { job: Job::Backup(job), .. } => (
                    job.backup_type,
                    job.run_name.backup_name.clone(),
                    job.source_dir.clone(),
                    entries.len(),
                ),
                other => panic!("{:?}", other),
            },
            other => panic!("{:?}", other),
        })
        .collect()
}

#[test]
fn a_scheduled_run_plans_what_is_due() {
    let states = vec![
        // home: never backed up
        state("/home/dev", &[], &[]),
        // etc: full backup of today
        state("/etc", &["2024-05-17-09-00-00-000__box__dev__etc"], &[]),
        // var: full backup of the 10th, no incremental backup since
        state("/var", &["2024-05-10-09-00-00-000__box__dev__var"], &[]),
    ];
    let queue = run_backup_scheduled(&config(), &machine(), &states).unwrap();
    assert_eq!(
        backups_of(&queue),
        vec![
            (BackupType::Full, "home".to_string(), "/home/dev".to_string(), 2),
            (BackupType::Incremental, "var".to_string(), "/var".to_string(), 1),
        ]
    );
    let none = vec![
        state("/home/dev", &["2024-05-17-09-00-00-000__box__dev__home"], &[]),
        state("/etc", &["2024-05-17-09-00-00-000__box__dev__etc"], &[]),
        state("/var", &["2024-05-10-09-00-00-000__box__dev__var"], &["2024-05-17-00-00-00-000__box__dev__var"]),
    ];
    assert!(run_backup_scheduled(&config(), &machine(), &none).unwrap().is_empty());
}

#[test]
fn a_run_by_hand_plans_what_is_named() {
    let states = vec![
        state("/home/dev", &["2024-05-17-09-00-00-000__box__dev__home"], &[]),
        state("/etc", &["2024-05-17-09-00-00-000__box__dev__etc"], &[]),
        state("/var", &["2024-05-10-09-00-00-000__box__dev__var"], &[]),
    ];
    let queue = run_backup_manual(&config(), &machine(), &states, BackupType::Full, "etc").unwrap();
    assert_eq!(backups_of(&queue), vec![(BackupType::Full, "etc".to_string(), "/etc".to_string(), 2)]);
    let queue = run_backup_manual(&config(), &machine(), &states, BackupType::Incremental, "all").unwrap();
    assert_eq!(
        backups_of(&queue),
        vec![
            (BackupType::Incremental, "home".to_string(), "/home/dev".to_string(), 1),
            (BackupType::Incremental, "etc".to_string(), "/etc".to_string(), 1),
            (BackupType::Incremental, "var".to_string(), "/var".to_string(), 1),
        ]
    );
    match run_backup_manual(&config(), &machine(), &states, BackupType::Full, "usr") {
        Err(Error::ConfigReferenceNotFound { schema, name }) => {
            assert_eq!(schema, "[backup]");
            assert_eq!(name, "usr");
        }
        other => panic!("{:?}", other),
    }
    let fresh = vec![state("/home/dev", &[], &[]), state("/etc", &[], &[]), state("/var", &[], &[])];
    assert!(matches!(
        run_backup_manual(&config(), &machine(), &fresh, BackupType::Incremental, "all"),
        Err(Error::FullBackupNotFound { .. })
    ));
}

#[test]
fn a_run_is_what_the_command_asks_for() {
    let states = vec![
        state("/home/dev", &[], &[]),
        state("/etc", &["2024-05-17-09-00-00-000__box__dev__etc"], &[]),
        state("/var", &["2024-05-17-09-00-00-000__box__dev__var"], &[]),
    ];
    let scheduled = run_backup(&BackupCommand::Scheduled, &config(), &machine(), &states).unwrap();
    assert_eq!(backups_of(&scheduled).len(), 1);
    let full = BackupCommand::Full(ManualBackupCommand { name: "all".to_string() });
    assert_eq!(backups_of(&run_backup(&full, &config(), &machine(), &states).unwrap()).len(), 3);
    let incremental = BackupCommand::Incremental(ManualBackupCommand { name: "var".to_string() });
    assert_eq!(
        backups_of(&run_backup(&incremental, &config(), &machine(), &states).unwrap()),
        vec![(BackupType::Incremental, "var".to_string(), "/var".to_string(), 1)]
    );
}

#[test]
fn a_machine_needs_a_moment_a_host_and_a_storage_directory() {
    let now = DateTime::new(2024, 5, 13, 10, 0, 0, 0);
    let made = machine_of(now, Some("box".to_string()), "ann".to_string(), Some("/storage".to_string()))
        .unwrap();
    assert_eq!(Some(made.now), now);
    assert_eq!(made.hostname, "box");
    assert_eq!(made.username, "ann");
    assert_eq!(made.storage_dir, "/storage");
    assert!(machine_of(None, Some("box".to_string()), "ann".to_string(), Some("/s".to_string())).is_none());
    assert!(machine_of(now, None, "ann".to_string(), Some("/s".to_string())).is_none());
    assert!(machine_of(now, Some("box".to_string()), "ann".to_string(), None).is_none());
}

fn testusr_config() -> BackupConfig {
    BackupConfig {
        backup_storage_dir: "/tmp/strg/backup".to_string(),
        schedules: vec![],
        backups: vec![backup("home-testusr", "/mock/source-1/home/testusr")],
        remotes: vec![],
        remote_groups: vec![],
    }
}

fn testusr_machine(now: DateTime) -> Machine {
    Machine {
        now,
        hostname: "box".to_string(),
        username: "testusr".to_string(),
        storage_dir: "/tmp/strg/backup".to_string(),
    }
}

fn done(_action: &Action) -> Outcome {
    Outcome { success: true, message: String::new() }
}

/// The name and the destination of each backup that was made.
fn backup_results(outputs: &[JobOutput]) -> Vec<(String, String)> {
    outputs
        .iter()
        .filter_map(|output| match output {
            JobOutput::Backup(made) => Some((made.run_name.backup_name.clone(), made.dest_dir.clone())),
            _ => None,
        })
        .collect()
}

#[test]
fn test_manual_full() {
    let config = testusr_config();
    let machine = testusr_machine(DateTime::new(2024, 5, 17, 14, 3, 0, 0).unwrap());
    let states = vec![state("/mock/source-1/home/testusr", &[], &[])];
    let full = BackupCommand::Full(ManualBackupCommand { name: "home-testusr".to_string() });
    let queue = run_backup(&full, &config, &machine, &states).unwrap();
    let results = backup_results(&run_jobs(queue, &done).unwrap());
    assert_eq!(1, results.len());
    assert_eq!("home-testusr", results[0].0);
    assert_eq!(
        "/tmp/strg/backup/full/box/testusr/2024-05-17-14-03-00-000__box__testusr__home-testusr",
        results[0].1
    );
}

#[test]
fn test_manual_incremental() {
    let config = testusr_config();
    let machine = testusr_machine(DateTime::new(2024, 5, 17, 14, 3, 0, 0).unwrap());
    let states = vec![state("/mock/source-1/home/testusr", &[], &[])];
    let full = BackupCommand::Full(ManualBackupCommand { name: "home-testusr".to_string() });
    let queue = run_backup(&full, &config, &machine, &states).unwrap();
    let results = backup_results(&run_jobs(queue, &done).unwrap());
    assert_eq!(1, results.len());
    assert_eq!("home-testusr", results[0].0);

    let later = testusr_machine(DateTime::new(2024, 5, 17, 14, 4, 0, 0).unwrap());
    let states = vec![state(
        "/mock/source-2/home/testusr",
        &["2024-05-17-14-03-00-000__box__testusr__home-testusr"],
        &[],
    )];
    let incremental = BackupCommand::Incremental(ManualBackupCommand { name: "home-testusr".to_string() });
    let queue = run_backup(&incremental, &config, &later, &states).unwrap();
    let results = backup_results(&run_jobs(queue, &done).unwrap());
    assert_eq!(1, results.len());
    assert_eq!("home-testusr", results[0].0);
    assert_eq!(
        "/tmp/strg/backup/incremental/box/testusr/2024-05-17-14-04-00-000__box__testusr__home-testusr",
        results[0].1
    );
}
