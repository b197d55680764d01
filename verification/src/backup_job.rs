//! The backup itself: the copy of a directory tree into the storage tree.

use crate::backup::BackupType;
use crate::cmd::{
    action_views, cmd_rsync_full, cmd_rsync_incremental, spec_rsync_full, spec_rsync_incremental,
    Action, ActionView,
};
use crate::error::{option_text, Error, ErrorView};
use crate::job::{JobOutput, JobOutputTrait, JobOutputView, JobTrait};
use crate::paths::{parent, spec_parent};
use crate::run_name::{BackupRunName, BackupRunNameView};
use crate::sync::clone_option_string;
use vstd::prelude::*;

verus! {

/// The job that makes one backup.
#[derive(Debug)]
pub struct BackupJob {
    pub backup_type: BackupType,
    pub run_name: BackupRunName,
    pub source_dir: String,
    pub incremental_source_dir: Option<String>,
    pub dest_dir: String,
}

/// A backup job as mathematical data.
pub struct BackupJobView {
    pub backup_type: BackupType,
    pub run_name: BackupRunNameView,
    pub source_dir: Seq<char>,
    pub incremental_source_dir: Option<Seq<char>>,
    pub dest_dir: Seq<char>,
}

impl View for BackupJob {
    type V = BackupJobView;

    open spec fn view(&self) -> BackupJobView {
        BackupJobView {
            backup_type: self.backup_type,
            run_name: self.run_name@,
            source_dir: self.source_dir@,
            incremental_source_dir: option_text(self.incremental_source_dir),
            dest_dir: self.dest_dir@,
        }
    }
}

/// What a backup job hands back.
#[derive(Debug)]
pub struct BackupJobOutput {
    pub backup_type: BackupType,
    pub run_name: BackupRunName,
    pub source_dir: String,
    pub incremental_source_dir: Option<String>,
    pub dest_dir: String,
}

impl View for BackupJobOutput {
    type V = BackupJobView;

    open spec fn view(&self) -> BackupJobView {
        BackupJobView {
            backup_type: self.backup_type,
            run_name: self.run_name@,
            source_dir: self.source_dir@,
            incremental_source_dir: option_text(self.incremental_source_dir),
            dest_dir: self.dest_dir@,
        }
    }
}

impl JobOutputTrait for BackupJobOutput {

}

impl BackupJobView {
    /// The `rsync` command of the job: a full copy, or a copy linked
    /// against the last full backup. An incremental backup without a full
    /// backup to link against cannot be made.
    pub open spec fn copy_action(self) -> Result<ActionView, ErrorView> {
        match self.backup_type {
            BackupType::Full => Ok(
                ActionView::Run { command: spec_rsync_full(self.source_dir, self.dest_dir) },
            ),
            BackupType::Incremental => match self.incremental_source_dir {
                Some(link) => Ok(
                    ActionView::Run {
                        command: spec_rsync_incremental(link, self.source_dir, self.dest_dir),
                    },
                ),
                None => Err(ErrorView::FullBackupNotFound { backup_name: self.run_name.backup_name }),
            },
        }
    }

    /// The actions of the job: create the directory that will hold the
    /// backup, where the backup stands in one, then run `rsync`.
    pub open spec fn steps(self) -> Result<Seq<ActionView>, ErrorView> {
        match self.copy_action() {
            Err(e) => Err(e),
            Ok(copy) => match spec_parent(self.dest_dir) {
                Some(dir) => Ok(seq![ActionView::CreateDir { path: dir }, copy]),
                None => Ok(seq![copy]),
            },
        }
    }
}

impl JobTrait for BackupJob {
    type Output = BackupJobOutput;

    open spec fn spec_break_on_error(&self) -> bool {
        true
    }

    open spec fn spec_steps(&self) -> Result<Seq<ActionView>, ErrorView> {
        self@.steps()
    }

    open spec fn spec_output(&self) -> JobOutputView {
        JobOutputView::Backup(self@)
    }

    fn break_on_error(&self) -> (r: bool) {
        true
    }

    fn steps(&self) -> (r: Result<Vec<Action>, Error>) {
        let command = match self.backup_type {
            BackupType::Full => cmd_rsync_full(self.source_dir.as_str(), self.dest_dir.as_str()),
            BackupType::Incremental => match &self.incremental_source_dir {
                Some(link) => cmd_rsync_incremental(
                    link.as_str(),
                    self.source_dir.as_str(),
                    self.dest_dir.as_str(),
                ),
                None => {
                    return Err(
                        Error::FullBackupNotFound { backup_name: self.run_name.backup_name.clone() },
                    );
                },
            },
        };
        let mut actions: Vec<Action> = Vec::new();
        match parent(self.dest_dir.as_str()) {
            Some(dir) => {
                actions.push(Action::CreateDir { path: dir });
                actions.push(Action::Run { command });
                assert(action_views(actions@) =~= seq![actions@[0]@, actions@[1]@]);
            },
            None => {
                actions.push(Action::Run { command });
                assert(action_views(actions@) =~= seq![actions@[0]@]);
            },
        }
        Ok(actions)
    }

    fn output(&self) -> (r: JobOutput) {
        JobOutput::Backup(
            BackupJobOutput {
                backup_type: self.backup_type,
                run_name: self.run_name.clone(),
                source_dir: self.source_dir.clone(),
                incremental_source_dir: clone_option_string(&self.incremental_source_dir),
                dest_dir: self.dest_dir.clone(),
            },
        )
    }
}

} // verus!
