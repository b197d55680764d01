use bak9::backup::{BackupType, RunContext};
use bak9::backup_job::BackupJob;
use bak9::cmd::{Action, Outcome};
use bak9::config::{
    BackupConfig, BackupConfigArchive, BackupConfigBackup, BackupConfigRemote,
    BackupConfigRemoteGroup, BackupConfigSync,
};
use bak9::due::{backup_job_due, baseline, due_backup_type, find_last_backup, names_run_of};
use bak9::error::Error;
use bak9::job::{Job, JobOutput, JobQueueEntry, JobStatus};
use bak9::runner::run_jobs;
use bak9::schedule::DateTime;

fn moment(year: u16, month: u8, day: u8, hour: u8, minute: u8) -> DateTime {
    DateTime::new(year, month, day, hour, minute, 0, 0).unwrap()
}

fn remote(name: &str, host: &str, user: Option<&str>, dir: &str) -> BackupConfigRemote {
    BackupConfigRemote {
        name: name.to_string(),
        host: host.to_string(),
        user: user.map(String::from),
        backup_storage_dir: dir.to_string(),
    }
}

fn config(syncs: Vec<BackupConfigSync>) -> BackupConfig {
    BackupConfig {
        backup_storage_dir: "/storage/backup".to_string(),
        schedules: vec![],
        backups: vec![BackupConfigBackup {
            name: "home".to_string(),
            source_dir: "/home/dev".to_string(),
            full_schedule: "monthly".to_string(),
            incremental_schedule: "daily".to_string(),
            max_full: 4,
            archives: vec![BackupConfigArchive { schedule: "quarterly".to_string(), max_archives: 5 }],
            syncs,
        }],
        remotes: vec![
            remote("laptop1", "laptop1.local", None, "/storage/backup"),
            remote("desktop1", "desktop.local", None, "/srv/backup/"),
            remote("cloud", "cloud.local", Some("backup"), "/home/backup"),
        ],
        remote_groups: vec![BackupConfigRemoteGroup {
            name: "roam".to_string(),
            remotes: vec!["laptop1".to_string(), "desktop1".to_string()],
        }],
    }
}

fn context(now: DateTime) -> RunContext {
    RunContext {
        now,
        hostname: "box".to_string(),
        username: "dev".to_string(),
        storage_dir: "/storage/backup".to_string(),
        source_dir: "/home/dev".to_string(),
    }
}

fn jobs_of(entry: JobQueueEntry) -> Vec<Job> {
    match entry {
        JobQueueEntry::Series(entries) => entries
            .into_iter()
            .map(|entry| match entry {
                JobQueueEntry::Job { job, status, result } => {
                    assert_eq!(status, JobStatus::Ready);
                    assert!(result.is_none());
                    job
                }
                JobQueueEntry::Series(_) => panic!("a series within the series"),
            })
            .collect(),
        JobQueueEntry::Job { .. } => panic!("a job in place of the series"),
    }
}

const RUN: &str = "2024-05-17-14-03-00-000__box__dev__home";

#[test]
fn a_first_plan_is_a_full_backup_with_its_archive() {
    let config = config(vec![]);
    let now = moment(2024, 5, 17, 14, 3);
    let entry = BackupJob::plan(BackupType::Full, &config.backups[0], &config, &context(now), None).unwrap();
    let jobs = jobs_of(entry);
    assert_eq!(jobs.len(), 2);
    match &jobs[0] {
        Job::Backup(job) => {
            assert_eq!(job.backup_type, BackupType::Full);
            assert_eq!(job.run_name.to_string(), RUN);
            assert_eq!(job.source_dir, "/home/dev");
            assert_eq!(job.incremental_source_dir, None);
            assert_eq!(job.dest_dir, format!("/storage/backup/full/box/dev/{RUN}"));
        }
        other => panic!("{:?}", other),
    }
    match &jobs[1] {
        Job::Archive(job) => {
            assert_eq!(job.backup_run_name.to_string(), RUN);
            assert_eq!(job.source_dir, format!("/storage/backup/full/box/dev/{RUN}"));
            assert_eq!(job.dest_filepath, format!("/storage/backup/archive/{RUN}.tar.xz"));
        }
        other => panic!("{:?}", other),
    }
}

#[test]
fn a_full_plan_copies_to_the_remotes_in_the_order_of_the_rules() {
    let group = BackupConfigSync {
        remote: None,
        remote_group: Some("roam".to_string()),
        sync_full: true,
        sync_incremental: false,
        sync_archive: true,
    };
    let single = BackupConfigSync {
        remote: Some("cloud".to_string()),
        remote_group: None,
        sync_full: false,
        sync_incremental: true,
        sync_archive: true,
    };
    let config = config(vec![group, single]);
    let now = moment(2024, 5, 17, 14, 3);
    let entry = BackupJob::plan(BackupType::Full, &config.backups[0], &config, &context(now), None).unwrap();
    let kinds: Vec<String> = jobs_of(entry)
        .iter()
        .map(|job| match job {
            Job::Backup(_) => "backup".to_string(),
            Job::Archive(_) => "archive".to_string(),
            Job::SyncBackup(job) => {
                assert_eq!(job.remote_incremental_source_dir, None);
                format!("sync {} -> {}:{}", job.source_dir, job.remote.name, job.remote_dest_dir)
            }
            Job::SyncArchive(job) => {
                format!("archive {} -> {}:{}", job.source_filepath, job.remote.name, job.remote_dest_filepath)
            }
        })
        .collect();
    assert_eq!(
        kinds,
        vec![
            "backup".to_string(),
            "archive".to_string(),
            format!("sync /home/dev -> laptop1:/storage/backup/full/{RUN}"),
            format!("archive /storage/backup/archive/{RUN}.tar.xz -> laptop1:/storage/backup/archive/{RUN}.tar.xz"),
            format!("sync /home/dev -> desktop1:/srv/backup/full/{RUN}"),
            format!("archive /storage/backup/archive/{RUN}.tar.xz -> desktop1:/srv/backup/archive/{RUN}.tar.xz"),
            format!("archive /storage/backup/archive/{RUN}.tar.xz -> cloud:/home/backup/archive/{RUN}.tar.xz"),
        ]
    );
}

#[test]
fn an_incremental_plan_links_against_the_last_full_backup() {
    let single = BackupConfigSync {
        remote: Some("cloud".to_string()),
        remote_group: None,
        sync_full: true,
        sync_incremental: true,
        sync_archive: true,
    };
    let config = config(vec![single]);
    let now = moment(2024, 5, 17, 14, 3);
    let last = "2024-05-01-00-00-00-000__box__dev__home";
    let entry =
        BackupJob::plan(BackupType::Incremental, &config.backups[0], &config, &context(now), Some(last))
            .unwrap();
    let jobs = jobs_of(entry);
    assert_eq!(jobs.len(), 2);
    match &jobs[0] {
        Job::Backup(job) => {
            assert_eq!(job.backup_type, BackupType::Incremental);
            assert_eq!(job.incremental_source_dir, Some(format!("/storage/backup/full/box/dev/{last}")));
            assert_eq!(job.dest_dir, format!("/storage/backup/incremental/box/dev/{RUN}"));
        }
        other => panic!("{:?}", other),
    }
    match &jobs[1] {
        Job::SyncBackup(job) => {
            assert_eq!(job.backup_type, BackupType::Incremental);
            assert_eq!(job.remote.host, "cloud.local");
            assert_eq!(job.remote.user, Some("backup".to_string()));
            assert_eq!(job.remote_incremental_source_dir, Some(format!("/home/backup/full/{last}")));
            assert_eq!(job.remote_dest_dir, format!("/home/backup/incremental/{RUN}"));
        }
        other => panic!("{:?}", other),
    }
}

#[test]
fn no_incremental_plan_without_a_full_backup() {
    let config = config(vec![]);
    let now = moment(2024, 5, 17, 14, 3);
    match BackupJob::plan(BackupType::Incremental, &config.backups[0], &config, &context(now), None) {
        Err(Error::FullBackupNotFound { backup_name }) => assert_eq!(backup_name, "home"),
        other => panic!("{:?}", other),
    }
}

#[test]
fn no_plan_with_a_remote_that_is_not_configured() {
    let unknown = BackupConfigSync {
        remote: Some("nas".to_string()),
        remote_group: None,
        sync_full: true,
        sync_incremental: true,
        sync_archive: true,
    };
    let config = config(vec![unknown]);
    let now = moment(2024, 5, 17, 14, 3);
    match BackupJob::plan(BackupType::Full, &config.backups[0], &config, &context(now), None) {
        Err(Error::ConfigReferenceNotFound { schema, name }) => {
            assert_eq!(schema, "[remote]");
            assert_eq!(name, "nas");
        }
        other => panic!("{:?}", other),
    }
}

#[test]
fn the_last_backup_is_the_latest_run_of_the_same_host_user_and_backup() {
    let entries: Vec<String> = [
        "2024-05-01-00-00-00-000__box__dev__home",
        "2024-06-01-00-00-00-000__box__dev__home",
        "2024-07-01-00-00-00-000__box__dev__etc",
        "2024-07-01-00-00-00-000__other__dev__home",
        "2024-07-01-00-00-00-000__box__root__home",
        "2024-03-01-00-00-00-000__box__dev__home",
        "lost+found",
        "2024-08-01-00-00-00-000__box__dev__home__more",
        "2024-02-30-00-00-00-000__box__dev__home",
    ]
    .iter()
    .map(|s| s.to_string())
    .collect();
    assert_eq!(
        find_last_backup(&entries, "box", "dev", "home"),
        Some("2024-06-01-00-00-00-000__box__dev__home".to_string())
    );
    assert_eq!(
        find_last_backup(&entries, "box", "dev", "etc"),
        Some("2024-07-01-00-00-00-000__box__dev__etc".to_string())
    );
    assert_eq!(find_last_backup(&entries, "box", "dev", "var"), None);
    assert_eq!(find_last_backup(&vec![], "box", "dev", "home"), None);
    assert!(names_run_of("2024-05-01-00-00-00-000__box__dev__home", "box", "dev", "home"));
    assert!(!names_run_of("2024-05-01-00-00-00-000__box__dev__home", "box", "dev", "hom"));
}

#[test]
fn a_full_backup_is_due_where_there_is_none() {
    let config = config(vec![]);
    let now = moment(2024, 5, 17, 14, 3);
    assert_eq!(
        due_backup_type(&config.backups[0], &config, &now, None, None).unwrap(),
        Some(BackupType::Full)
    );
}

#[test]
fn a_full_backup_is_due_when_its_schedule_has_come_round() {
    let config = config(vec![]);
    let last_full = Some(moment(2024, 4, 20, 9, 0));
    // the monthly schedule comes round on the first of May
    let before = moment(2024, 4, 30, 23, 59);
    let at = moment(2024, 5, 1, 0, 0);
    let backup = &config.backups[0];
    assert_ne!(due_backup_type(backup, &config, &before, last_full, None).unwrap(), Some(BackupType::Full));
    assert_eq!(due_backup_type(backup, &config, &at, last_full, None).unwrap(), Some(BackupType::Full));
    // and comes before an incremental backup that is due as well
    let last_incremental = Some(moment(2024, 4, 29, 0, 0));
    assert_eq!(
        due_backup_type(backup, &config, &at, last_full, last_incremental).unwrap(),
        Some(BackupType::Full)
    );
}

#[test]
fn an_incremental_backup_is_due_a_day_after_the_last_backup() {
    let config = config(vec![]);
    let backup = &config.backups[0];
    let last_full = Some(moment(2024, 5, 2, 9, 0));
    let same_day = moment(2024, 5, 2, 23, 59);
    let next_day = moment(2024, 5, 3, 0, 0);
    assert_eq!(due_backup_type(backup, &config, &same_day, last_full, None).unwrap(), None);
    assert_eq!(
        due_backup_type(backup, &config, &next_day, last_full, None).unwrap(),
        Some(BackupType::Incremental)
    );
    // a later incremental backup moves the day on
    let last_incremental = Some(moment(2024, 5, 3, 0, 30));
    assert_eq!(due_backup_type(backup, &config, &moment(2024, 5, 3, 12, 0), last_full, last_incremental).unwrap(), None);
    assert_eq!(
        due_backup_type(backup, &config, &moment(2024, 5, 4, 0, 0), last_full, last_incremental).unwrap(),
        Some(BackupType::Incremental)
    );
    // an incremental backup from before the last full backup does not count
    let stale = Some(moment(2024, 4, 1, 0, 0));
    assert_eq!(due_backup_type(backup, &config, &same_day, last_full, stale).unwrap(), None);
    assert_eq!(baseline(moment(2024, 5, 2, 9, 0), stale), moment(2024, 5, 2, 9, 0));
    assert_eq!(baseline(moment(2024, 5, 2, 9, 0), last_incremental), moment(2024, 5, 3, 0, 30));
    assert_eq!(baseline(moment(2024, 5, 2, 9, 0), None), moment(2024, 5, 2, 9, 0));
}

#[test]
fn a_schedule_that_is_not_configured_is_an_error() {
    let mut config = config(vec![]);
    config.backups[0].full_schedule = "hourly".to_string();
    let now = moment(2024, 5, 17, 14, 3);
    let last_full = Some(moment(2024, 5, 2, 9, 0));
    match due_backup_type(&config.backups[0], &config, &now, last_full, None) {
        Err(Error::ConfigReferenceNotFound { schema, name }) => {
            assert_eq!(schema, "[schedule]");
            assert_eq!(name, "hourly");
        }
        other => panic!("{:?}", other),
    }
}

/// Carries out every action in memory: remembers the directories it has
/// created and the commands it has run.
fn carry_out(done: &std::cell::RefCell<Vec<String>>, action: &Action) -> Outcome {
    match action {
        Action::CreateDir { path } => done.borrow_mut().push(format!("mkdir {path}")),
        Action::Run { command } => {
            done.borrow_mut().push(format!("{} {}", command.program, command.args.join(" ")))
        }
    }
    Outcome { success: true, message: String::new() }
}

#[test]
fn backup_test_scheduled_full() {
    let config = config(vec![]);
    let now = moment(2024, 5, 17, 14, 3);
    let done = std::cell::RefCell::new(Vec::new());

    let entry = backup_job_due(&config.backups[0], &config, &context(now), &vec![], &vec![])
        .unwrap()
        .unwrap();
    let mut results = run_jobs(vec![entry], &|action: &Action| carry_out(&done, action)).unwrap();
    assert_eq!(2, results.len());
    let archive_output = match results.pop().unwrap() {
        JobOutput::Archive(job) => job,
        _ => panic!(),
    };
    let backup_output = match results.pop().unwrap() {
        JobOutput::Backup(job) => job,
        _ => panic!(),
    };
    assert_eq!(backup_output.source_dir, "/home/dev");
    assert_eq!(backup_output.dest_dir, format!("/storage/backup/full/box/dev/{RUN}"));
    assert_eq!(archive_output.dest_filepath, format!("/storage/backup/archive/{RUN}.tar.xz"));
    assert_eq!(
        done.borrow().clone(),
        vec![
            "mkdir /storage/backup/full/box/dev".to_string(),
            format!("rsync --archive /home/dev /storage/backup/full/box/dev/{RUN}"),
            "mkdir /storage/backup/archive".to_string(),
            format!("tar cf /storage/backup/archive/{RUN}.tar.xz --use-compress-program xz -T0 {RUN}"),
        ]
    );

    // try running it again. it should not create a new backup for "today"
    let later = moment(2024, 5, 17, 18, 0);
    let full_runs = vec![RUN.to_string()];
    assert!(backup_job_due(&config.backups[0], &config, &context(later), &full_runs, &vec![])
        .unwrap()
        .is_none());
}

#[test]
fn backup_test_scheduled_incremental() {
    let config = config(vec![]);
    let full_runs = vec![RUN.to_string()];
    let next_day = moment(2024, 5, 18, 0, 0);
    let entry = backup_job_due(&config.backups[0], &config, &context(next_day), &full_runs, &vec![])
        .unwrap()
        .unwrap();
    let jobs = jobs_of(entry);
    assert_eq!(jobs.len(), 1);
    match &jobs[0] {
        Job::Backup(job) => {
            assert_eq!(job.backup_type, BackupType::Incremental);
            assert_eq!(job.incremental_source_dir, Some(format!("/storage/backup/full/box/dev/{RUN}")));
        }
        other => panic!("{:?}", other),
    }
    // once the incremental backup of the day is there, nothing is due
    let incremental_runs = vec!["2024-05-18-00-00-00-000__box__dev__home".to_string()];
    let noon = moment(2024, 5, 18, 12, 0);
    assert!(backup_job_due(&config.backups[0], &config, &context(noon), &full_runs, &incremental_runs)
        .unwrap()
        .is_none());
}
