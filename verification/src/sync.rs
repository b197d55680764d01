//! Copies of backups and archives to remotes.

use crate::backup::BackupType;
use crate::cmd::{
    action_views, cmd_rsync_full_ssh, cmd_rsync_incremental_ssh, spec_remote_path,
    spec_rsync_full, spec_rsync_incremental, Action, ActionView,
};
use crate::error::{option_text, Error, ErrorView};
use crate::job::{JobOutput, JobOutputTrait, JobOutputView, JobTrait};
use crate::run_name::{BackupRunName, BackupRunNameView};
use vstd::prelude::*;

verus! {

/// A host that backups are copied to, as a job needs it.
#[derive(Debug)]
pub struct Remote {
    pub name: String,
    pub host: String,
    pub user: Option<String>,
}

/// A remote as mathematical data.
pub struct RemoteView {
    pub name: Seq<char>,
    pub host: Seq<char>,
    pub user: Option<Seq<char>>,
}

impl View for Remote {
    type V = RemoteView;

    open spec fn view(&self) -> RemoteView {
        RemoteView { name: self.name@, host: self.host@, user: option_text(self.user) }
    }
}

/// A copy of an optional string.
pub fn clone_option_string(s: &Option<String>) -> (r: Option<String>)
    ensures
        r == *s,
{
    match s {
        Some(s) => Some(s.clone()),
        None => None,
    }
}

/// The text of an optional string, borrowed.
pub fn option_as_str(s: &Option<String>) -> (r: Option<&str>)
    ensures
        match r {
            Some(t) => option_text(*s) == Some(t@),
            None => s is None,
        },
{
    match s {
        Some(s) => Some(s.as_str()),
        None => None,
    }
}

impl Clone for Remote {
    fn clone(&self) -> (r: Self)
        ensures
            r == *self,
    {
        Remote {
            name: self.name.clone(),
            host: self.host.clone(),
            user: clone_option_string(&self.user),
        }
    }
}

/// The job that copies one backup to one remote.
#[derive(Debug)]
pub struct SyncBackupJob {
    pub remote: Remote,
    pub backup_type: BackupType,
    pub backup_run_name: BackupRunName,
    pub source_dir: String,
    pub remote_incremental_source_dir: Option<String>,
    pub remote_dest_dir: String,
}

/// The copy of a backup to a remote as mathematical data.
pub struct SyncBackupJobView {
    pub remote: RemoteView,
    pub backup_type: BackupType,
    pub backup_run_name: BackupRunNameView,
    pub source_dir: Seq<char>,
    pub remote_incremental_source_dir: Option<Seq<char>>,
    pub remote_dest_dir: Seq<char>,
}

impl View for SyncBackupJob {
    type V = SyncBackupJobView;

    open spec fn view(&self) -> SyncBackupJobView {
        SyncBackupJobView {
            remote: self.remote@,
            backup_type: self.backup_type,
            backup_run_name: self.backup_run_name@,
            source_dir: self.source_dir@,
            remote_incremental_source_dir: option_text(self.remote_incremental_source_dir),
            remote_dest_dir: self.remote_dest_dir@,
        }
    }
}

/// What the copy of a backup to a remote hands back.
#[derive(Debug)]
pub struct SyncBackupJobOutput {
    pub remote: Remote,
    pub source_dir: String,
    pub remote_incremental_source_dir: Option<String>,
    pub remote_dest_dir: String,
}

/// The output of the copy of a backup as mathematical data.
pub struct SyncBackupJobOutputView {
    pub remote: RemoteView,
    pub source_dir: Seq<char>,
    pub remote_incremental_source_dir: Option<Seq<char>>,
    pub remote_dest_dir: Seq<char>,
}

impl View for SyncBackupJobOutput {
    type V = SyncBackupJobOutputView;

    open spec fn view(&self) -> SyncBackupJobOutputView {
        SyncBackupJobOutputView {
            remote: self.remote@,
            source_dir: self.source_dir@,
            remote_incremental_source_dir: option_text(self.remote_incremental_source_dir),
            remote_dest_dir: self.remote_dest_dir@,
        }
    }
}

impl JobOutputTrait for SyncBackupJobOutput {

}

impl SyncBackupJobView {
    /// The one action of the job: `rsync` to the remote, in full or linked
    /// against the copy of the last full backup on the remote. An
    /// incremental copy without such a copy cannot be made.
    pub open spec fn steps(self) -> Result<Seq<ActionView>, ErrorView> {
        match self.backup_type {
            BackupType::Full => Ok(
                seq![
                    ActionView::Run {
                        command: spec_rsync_full(
                            self.source_dir,
                            spec_remote_path(self.remote.host, self.remote.user, self.remote_dest_dir),
                        ),
                    },
                ],
            ),
            BackupType::Incremental => match self.remote_incremental_source_dir {
                Some(link) => Ok(
                    seq![
                        ActionView::Run {
                            command: spec_rsync_incremental(
                                spec_remote_path(self.remote.host, self.remote.user, link),
                                self.source_dir,
                                spec_remote_path(
                                    self.remote.host,
                                    self.remote.user,
                                    self.remote_dest_dir,
                                ),
                            ),
                        },
                    ],
                ),
                None => Err(
                    ErrorView::FullBackupNotFound { backup_name: self.backup_run_name.backup_name },
                ),
            },
        }
    }

    /// What the job hands back.
    pub open spec fn output(self) -> SyncBackupJobOutputView {
        SyncBackupJobOutputView {
            remote: self.remote,
            source_dir: self.source_dir,
            remote_incremental_source_dir: self.remote_incremental_source_dir,
            remote_dest_dir: self.remote_dest_dir,
        }
    }
}

impl JobTrait for SyncBackupJob {
    type Output = SyncBackupJobOutput;

    open spec fn spec_break_on_error(&self) -> bool {
        true
    }

    open spec fn spec_steps(&self) -> Result<Seq<ActionView>, ErrorView> {
        self@.steps()
    }

    open spec fn spec_output(&self) -> JobOutputView {
        JobOutputView::SyncBackup(self@.output())
    }

    fn break_on_error(&self) -> (r: bool) {
        true
    }

    fn steps(&self) -> (r: Result<Vec<Action>, Error>) {
        let user = option_as_str(&self.remote.user);
        let command = match self.backup_type {
            BackupType::Full => cmd_rsync_full_ssh(
                self.source_dir.as_str(),
                self.remote.host.as_str(),
                user,
                self.remote_dest_dir.as_str(),
            ),
            BackupType::Incremental => match &self.remote_incremental_source_dir {
                Some(link) => cmd_rsync_incremental_ssh(
                    self.source_dir.as_str(),
                    self.remote.host.as_str(),
                    user,
                    link.as_str(),
                    self.remote_dest_dir.as_str(),
                ),
                None => {
                    return Err(
                        Error::FullBackupNotFound {
                            backup_name: self.backup_run_name.backup_name.clone(),
                        },
                    );
                },
            },
        };
        let mut actions: Vec<Action> = Vec::new();
        actions.push(Action::Run { command });
        assert(action_views(actions@) =~= seq![actions@[0]@]);
        Ok(actions)
    }

    fn output(&self) -> (r: JobOutput) {
        JobOutput::SyncBackup(
            SyncBackupJobOutput {
                remote: self.remote.clone(),
                source_dir: self.source_dir.clone(),
                remote_incremental_source_dir: clone_option_string(
                    &self.remote_incremental_source_dir,
                ),
                remote_dest_dir: self.remote_dest_dir.clone(),
            },
        )
    }
}

/// The job that copies one archive to one remote.
#[derive(Debug)]
pub struct SyncArchiveJob {
    pub backup_run_name: BackupRunName,
    pub remote: Remote,
    pub source_filepath: String,
    pub remote_dest_filepath: String,
}

/// The copy of an archive to a remote as mathematical data.
pub struct SyncArchiveJobView {
    pub backup_run_name: BackupRunNameView,
    pub remote: RemoteView,
    pub source_filepath: Seq<char>,
    pub remote_dest_filepath: Seq<char>,
}

impl View for SyncArchiveJob {
    type V = SyncArchiveJobView;

    open spec fn view(&self) -> SyncArchiveJobView {
        SyncArchiveJobView {
            backup_run_name: self.backup_run_name@,
            remote: self.remote@,
            source_filepath: self.source_filepath@,
            remote_dest_filepath: self.remote_dest_filepath@,
        }
    }
}

/// What the copy of an archive to a remote hands back.
#[derive(Debug)]
pub struct SyncArchiveJobOutput {
    pub backup_run_name: BackupRunName,
    pub remote: Remote,
    pub source_filepath: String,
    pub remote_dest_filepath: String,
}

impl View for SyncArchiveJobOutput {
    type V = SyncArchiveJobView;

    open spec fn view(&self) -> SyncArchiveJobView {
        SyncArchiveJobView {
            backup_run_name: self.backup_run_name@,
            remote: self.remote@,
            source_filepath: self.source_filepath@,
            remote_dest_filepath: self.remote_dest_filepath@,
        }
    }
}

impl JobOutputTrait for SyncArchiveJobOutput {

}

impl SyncArchiveJobView {
    /// The one action of the job: `rsync` of the archive to the remote.
    pub open spec fn steps(self) -> Result<Seq<ActionView>, ErrorView> {
        Ok(
            seq![
                ActionView::Run {
                    command: spec_rsync_full(
                        self.source_filepath,
                        spec_remote_path(self.remote.host, self.remote.user, self.remote_dest_filepath),
                    ),
                },
            ],
        )
    }
}

impl JobTrait for SyncArchiveJob {
    type Output = SyncArchiveJobOutput;

    open spec fn spec_break_on_error(&self) -> bool {
        true
    }

    open spec fn spec_steps(&self) -> Result<Seq<ActionView>, ErrorView> {
        self@.steps()
    }

    open spec fn spec_output(&self) -> JobOutputView {
        JobOutputView::SyncArchive(self@)
    }

    fn break_on_error(&self) -> (r: bool) {
        true
    }

    fn steps(&self) -> (r: Result<Vec<Action>, Error>) {
        let user = option_as_str(&self.remote.user);
        let command = cmd_rsync_full_ssh(
            self.source_filepath.as_str(),
            self.remote.host.as_str(),
            user,
            self.remote_dest_filepath.as_str(),
        );
        let mut actions: Vec<Action> = Vec::new();
        actions.push(Action::Run { command });
        assert(action_views(actions@) =~= seq![actions@[0]@]);
        Ok(actions)
    }

    fn output(&self) -> (r: JobOutput) {
        JobOutput::SyncArchive(
            SyncArchiveJobOutput {
                backup_run_name: self.backup_run_name.clone(),
                remote: self.remote.clone(),
                source_filepath: self.source_filepath.clone(),
                remote_dest_filepath: self.remote_dest_filepath.clone(),
            },
        )
    }
}

} // verus!
