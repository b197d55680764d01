use bak9::archive::ArchiveJob;
use bak9::backup::BackupType;
use bak9::backup_job::BackupJob;
use bak9::cmd::{
    cmd_rsync_full, cmd_rsync_full_ssh, cmd_rsync_incremental, cmd_rsync_incremental_ssh,
    cmd_tar_xz, remote_path, Action, Outcome,
};
use bak9::error::Error;
use bak9::job::{Job, JobOutput, JobQueueEntry, JobStatus};
use bak9::run_name::BackupRunName;
use bak9::runner::{run_job_entry, run_jobs};
use bak9::schedule::DateTime;
use bak9::sync::{Remote, SyncArchiveJob, SyncBackupJob};
use std::cell::RefCell;

fn run_name() -> BackupRunName {
    BackupRunName::new(DateTime::new(2024, 5, 17, 14, 3, 0, 0).unwrap(), "box", "dev", "home")
}

fn backup_job(dest: &str) -> Job {
    Job::Backup(BackupJob {
        backup_type: BackupType::Full,
        run_name: run_name(),
        source_dir: "/home/dev".to_string(),
        incremental_source_dir: None,
        dest_dir: dest.to_string(),
    })
}

fn archive_job(source: &str, dest: &str) -> Job {
    Job::Archive(ArchiveJob {
        backup_run_name: run_name(),
        source_dir: source.to_string(),
        dest_filepath: dest.to_string(),
    })
}

fn ready(job: Job) -> JobQueueEntry {
    JobQueueEntry::Job { job, status: JobStatus::Ready, result: None }
}

fn describe(action: &Action) -> String {
    match action {
        Action::CreateDir { path } => format!("mkdir {path}"),
        Action::Run { command } => format!("{} {}", command.program, command.args.join(" ")),
    }
}

/// Carries out actions in memory; the actions that hold `fail` fail.
fn carry_out(done: &RefCell<Vec<String>>, fail: &str, action: &Action) -> Outcome {
    let text = describe(action);
    let success = fail.is_empty() || !text.contains(fail);
    done.borrow_mut().push(text);
    Outcome { success, message: if success { String::new() } else { "it broke".to_string() } }
}

fn statuses(entry: &JobQueueEntry, into: &mut Vec<(JobStatus, String)>) {
    match entry {
        JobQueueEntry::Job { status, result, .. } => into.push((
            *status,
            match result {
                None => "none".to_string(),
                Some(Ok(_)) => "output".to_string(),
                Some(Err(e)) => e.to_string(),
            },
        )),
        JobQueueEntry::Series(entries) => {
            for entry in entries {
                statuses(entry, into);
            }
        }
    }
}

#[test]
fn commands_are_put_together() {
    let full = cmd_rsync_full("/src", "/dst");
    assert_eq!(full.program, "rsync");
    assert_eq!(full.args, vec!["--archive", "/src", "/dst"]);
    assert_eq!(full.current_dir, None);
    let incremental = cmd_rsync_incremental("/link", "/src", "/dst");
    assert_eq!(incremental.args, vec!["--archive", "--delete", "--link-dest", "/link/", "/src", "/dst"]);
    assert_eq!(remote_path("host", Some("me"), "/dst"), "me@host:/dst");
    assert_eq!(remote_path("host", None, "/dst"), "host:/dst");
    assert_eq!(cmd_rsync_full_ssh("/src", "host", Some("me"), "/dst").args, vec!["--archive", "/src", "me@host:/dst"]);
    assert_eq!(
        cmd_rsync_incremental_ssh("/src", "host", None, "/link", "/dst").args,
        vec!["--archive", "--delete", "--link-dest", "host:/link/", "/src", "host:/dst"]
    );
    let tar = cmd_tar_xz("/storage/full/run", "/storage/archive/run.tar.xz").unwrap();
    assert_eq!(tar.program, "tar");
    assert_eq!(tar.args, vec!["cf", "/storage/archive/run.tar.xz", "--use-compress-program", "xz -T0", "run"]);
    assert_eq!(tar.current_dir, Some("/storage/full".to_string()));
    assert!(cmd_tar_xz("/", "/x.tar.xz").is_none());
}

#[test]
fn a_job_runs_its_actions_in_order() {
    let done = RefCell::new(Vec::new());
    let job = backup_job("/storage/full/run");
    let output = job.run(&|action: &Action| carry_out(&done, "", action)).unwrap();
    assert!(matches!(output, JobOutput::Backup(_)));
    assert_eq!(
        done.borrow().clone(),
        vec!["mkdir /storage/full".to_string(), "rsync --archive /home/dev /storage/full/run".to_string()]
    );
    assert!(job.break_on_error());
}

#[test]
fn a_job_stops_at_the_action_that_fails() {
    let done = RefCell::new(Vec::new());
    let job = backup_job("/storage/full/run");
    match job.run(&|action: &Action| carry_out(&done, "mkdir", action)) {
        Err(Error::FileIO { message, path, cause }) => {
            assert_eq!(message, "Failed to create backup run directory");
            assert_eq!(path, "/storage/full");
            assert_eq!(cause, Some("it broke".to_string()));
        }
        other => panic!("{:?}", other),
    }
    assert_eq!(done.borrow().len(), 1);
    match job.run(&|action: &Action| carry_out(&done, "rsync", action)) {
        Err(Error::RsyncError { cause }) => assert_eq!(cause, "it broke"),
        other => panic!("{:?}", other),
    }
}

#[test]
fn jobs_that_cannot_be_carried_out() {
    let done = RefCell::new(Vec::new());
    let exec = |action: &Action| carry_out(&done, "", action);
    let incremental = Job::Backup(BackupJob {
        backup_type: BackupType::Incremental,
        run_name: run_name(),
        source_dir: "/home/dev".to_string(),
        incremental_source_dir: None,
        dest_dir: "/storage/incremental/run".to_string(),
    });
    assert!(matches!(incremental.run(&exec), Err(Error::FullBackupNotFound { .. })));
    match archive_job("/storage/full/run", "").run(&exec) {
        Err(Error::FileIO { message, cause, .. }) => {
            assert_eq!(message, "Unable to determine parent directory");
            assert_eq!(cause, None);
        }
        other => panic!("{:?}", other),
    }
    assert!(done.borrow().is_empty());
}

#[test]
fn copies_to_remotes_run_rsync() {
    let done = RefCell::new(Vec::new());
    let exec = |action: &Action| carry_out(&done, "", action);
    let remote = Remote { name: "cloud".to_string(), host: "cloud.local".to_string(), user: Some("backup".to_string()) };
    let full = Job::SyncBackup(SyncBackupJob {
        remote: remote.clone(),
        backup_type: BackupType::Full,
        backup_run_name: run_name(),
        source_dir: "/home/dev".to_string(),
        remote_incremental_source_dir: None,
        remote_dest_dir: "/srv/full/run".to_string(),
    });
    let incremental = Job::SyncBackup(SyncBackupJob {
        remote: remote.clone(),
        backup_type: BackupType::Incremental,
        backup_run_name: run_name(),
        source_dir: "/home/dev".to_string(),
        remote_incremental_source_dir: Some("/srv/full/last".to_string()),
        remote_dest_dir: "/srv/incremental/run".to_string(),
    });
    let archive = Job::SyncArchive(SyncArchiveJob {
        backup_run_name: run_name(),
        remote,
        source_filepath: "/storage/archive/run.tar.xz".to_string(),
        remote_dest_filepath: "/srv/archive/run.tar.xz".to_string(),
    });
    assert!(matches!(full.run(&exec), Ok(JobOutput::SyncBackup(_))));
    assert!(matches!(incremental.run(&exec), Ok(JobOutput::SyncBackup(_))));
    assert!(matches!(archive.run(&exec), Ok(JobOutput::SyncArchive(_))));
    assert_eq!(
        done.borrow().clone(),
        vec![
            "rsync --archive /home/dev backup@cloud.local:/srv/full/run",
            "rsync --archive --delete --link-dest backup@cloud.local:/srv/full/last/ /home/dev backup@cloud.local:/srv/incremental/run",
            "rsync --archive /storage/archive/run.tar.xz backup@cloud.local:/srv/archive/run.tar.xz",
        ]
    );
}

#[test]
fn a_queue_runs_in_order_and_hands_back_its_outputs() {
    let done = RefCell::new(Vec::new());
    let queue = vec![
        JobQueueEntry::Series(vec![
            ready(backup_job("/storage/full/a")),
            ready(archive_job("/storage/full/a", "/storage/archive/a.tar.xz")),
        ]),
        ready(backup_job("/storage/full/b")),
    ];
    let outputs = run_jobs(queue, &|action: &Action| carry_out(&done, "", action)).unwrap();
    assert_eq!(outputs.len(), 3);
    assert!(matches!(outputs[0], JobOutput::Backup(_)));
    assert!(matches!(outputs[1], JobOutput::Archive(_)));
    match &outputs[2] {
        JobOutput::Backup(output) => assert_eq!(output.dest_dir, "/storage/full/b"),
        other => panic!("{:?}", other),
    }
    assert_eq!(
        done.borrow().clone(),
        vec![
            "mkdir /storage/full",
            "rsync --archive /home/dev /storage/full/a",
            "mkdir /storage/archive",
            "tar cf /storage/archive/a.tar.xz --use-compress-program xz -T0 a",
            "mkdir /storage/full",
            "rsync --archive /home/dev /storage/full/b",
        ]
    );
    assert!(run_jobs(vec![], &|action: &Action| carry_out(&done, "", action)).unwrap().is_empty());
}

#[test]
fn a_failure_ends_the_whole_run() {
    let done = RefCell::new(Vec::new());
    let queue = vec![
        JobQueueEntry::Series(vec![
            ready(backup_job("/storage/full/a")),
            ready(archive_job("/storage/full/a", "/storage/archive/a.tar.xz")),
            ready(backup_job("/storage/full/never")),
        ]),
        ready(backup_job("/storage/full/b")),
    ];
    match run_jobs(queue, &|action: &Action| carry_out(&done, "tar", action)) {
        Err(Error::RsyncError { cause }) => assert_eq!(cause, "it broke"),
        other => panic!("{:?}", other.map(|outputs| outputs.len())),
    }
    assert_eq!(done.borrow().len(), 4);
}

#[test]
fn jobs_behind_a_failure_are_canceled() {
    let done = RefCell::new(Vec::new());
    let entry = JobQueueEntry::Series(vec![
        JobQueueEntry::Series(vec![
            ready(backup_job("/storage/full/a")),
            ready(archive_job("/storage/full/a", "/storage/archive/a.tar.xz")),
            ready(backup_job("/storage/full/never")),
        ]),
        ready(backup_job("/storage/full/b")),
    ]);
    let (after, stopped) = run_job_entry(entry, &|action: &Action| carry_out(&done, "tar", action), false);
    assert!(stopped);
    let mut found = Vec::new();
    statuses(&after, &mut found);
    assert_eq!(
        found,
        vec![
            (JobStatus::Completed, "output".to_string()),
            (JobStatus::Failed, "Failed to rsync: it broke".to_string()),
            (JobStatus::Canceled, "none".to_string()),
            (JobStatus::Canceled, "none".to_string()),
        ]
    );

    let entry = JobQueueEntry::Series(vec![ready(backup_job("/storage/full/a"))]);
    let (after, stopped) = run_job_entry(entry, &|action: &Action| carry_out(&done, "", action), false);
    assert!(!stopped);
    let mut found = Vec::new();
    statuses(&after, &mut found);
    assert_eq!(found, vec![(JobStatus::Completed, "output".to_string())]);

    let before = done.borrow().len();
    let entry = ready(backup_job("/storage/full/a"));
    let (after, stopped) = run_job_entry(entry, &|action: &Action| carry_out(&done, "", action), true);
    assert!(stopped);
    assert_eq!(done.borrow().len(), before);
    let mut found = Vec::new();
    statuses(&after, &mut found);
    assert_eq!(found, vec![(JobStatus::Canceled, "none".to_string())]);
}

#[test]
fn statuses_have_names() {
    assert_eq!(JobStatus::Planned.to_string(), "Planned");
    assert_eq!(JobStatus::Ready.to_string(), "Ready");
    assert_eq!(JobStatus::Running.to_string(), "Running");
    assert_eq!(JobStatus::Completed.to_string(), "Completed");
    assert_eq!(JobStatus::Failed.to_string(), "Failed");
    assert_eq!(JobStatus::Canceled.to_string(), "Canceled");
    assert_eq!(BackupType::Full.to_string(), "full");
    assert_eq!(BackupType::Incremental.to_string(), "incremental");
}
