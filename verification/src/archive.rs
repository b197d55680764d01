//! The archive of a full backup: one compressed file of the whole tree.

use crate::cmd::{action_views, cmd_tar_xz, spec_tar_xz, Action, ActionView};
use crate::error::{Error, ErrorView};
use crate::job::{JobOutput, JobOutputTrait, JobOutputView, JobTrait};
use crate::paths::{parent, spec_parent};
use crate::run_name::{BackupRunName, BackupRunNameView};
use vstd::prelude::*;

verus! {

/// The job that packs one full backup into an archive.
#[derive(Debug)]
pub struct ArchiveJob {
    pub backup_run_name: BackupRunName,
    pub source_dir: String,
    pub dest_filepath: String,
}

/// An archive job as mathematical data.
pub struct ArchiveJobView {
    pub backup_run_name: BackupRunNameView,
    pub source_dir: Seq<char>,
    pub dest_filepath: Seq<char>,
}

impl View for ArchiveJob {
    type V = ArchiveJobView;

    open spec fn view(&self) -> ArchiveJobView {
        ArchiveJobView {
            backup_run_name: self.backup_run_name@,
            source_dir: self.source_dir@,
            dest_filepath: self.dest_filepath@,
        }
    }
}

/// What an archive job hands back.
#[derive(Debug)]
pub struct ArchiveJobOutput {
    pub backup_run_name: BackupRunName,
    pub source_dir: String,
    pub dest_filepath: String,
}

impl View for ArchiveJobOutput {
    type V = ArchiveJobView;

    open spec fn view(&self) -> ArchiveJobView {
        ArchiveJobView {
            backup_run_name: self.backup_run_name@,
            source_dir: self.source_dir@,
            dest_filepath: self.dest_filepath@,
        }
    }
}

impl JobOutputTrait for ArchiveJobOutput {

}

impl ArchiveJobOutput {
    /// The output of the archive job of the run `backup_run_name` that
    /// packed `source_dir` into `dest_filepath`.
    pub fn new(backup_run_name: BackupRunName, source_dir: String, dest_filepath: String) -> (r:
        Self)
        ensures
            r.backup_run_name == backup_run_name,
            r.source_dir == source_dir,
            r.dest_filepath == dest_filepath,
    {
        ArchiveJobOutput { backup_run_name, source_dir, dest_filepath }
    }
}

/// What is told where the directory of an archive cannot be found.
pub open spec fn no_parent_message() -> Seq<char> {
    "Unable to determine parent directory"@
}

impl ArchiveJobView {
    /// The actions of the job: create the directory that will hold the
    /// archive, then run `tar`. The job cannot be carried out where the
    /// archive or the source stands in no directory.
    pub open spec fn steps(self) -> Result<Seq<ActionView>, ErrorView> {
        match spec_parent(self.dest_filepath) {
            None => Err(
                ErrorView::FileIO {
                    message: no_parent_message(),
                    path: self.dest_filepath,
                    cause: None,
                },
            ),
            Some(dir) => match spec_tar_xz(self.source_dir, self.dest_filepath) {
                None => Err(
                    ErrorView::FileIO {
                        message: no_parent_message(),
                        path: self.source_dir,
                        cause: None,
                    },
                ),
                Some(command) => Ok(
                    seq![ActionView::CreateDir { path: dir }, ActionView::Run { command }],
                ),
            },
        }
    }
}

impl JobTrait for ArchiveJob {
    type Output = ArchiveJobOutput;

    open spec fn spec_break_on_error(&self) -> bool {
        true
    }

    open spec fn spec_steps(&self) -> Result<Seq<ActionView>, ErrorView> {
        self@.steps()
    }

    open spec fn spec_output(&self) -> JobOutputView {
        JobOutputView::Archive(self@)
    }

    fn break_on_error(&self) -> (r: bool) {
        true
    }

    fn steps(&self) -> (r: Result<Vec<Action>, Error>) {
        let dir = match parent(self.dest_filepath.as_str()) {
            Some(dir) => dir,
            None => {
                return Err(
                    Error::file_io_err(
                        self.dest_filepath.as_str(),
                        "Unable to determine parent directory",
                    ),
                );
            },
        };
        let command = match cmd_tar_xz(self.source_dir.as_str(), self.dest_filepath.as_str()) {
            Some(command) => command,
            None => {
                return Err(
                    Error::file_io_err(
                        self.source_dir.as_str(),
                        "Unable to determine parent directory",
                    ),
                );
            },
        };
        let mut actions: Vec<Action> = Vec::new();
        actions.push(Action::CreateDir { path: dir });
        actions.push(Action::Run { command });
        assert(action_views(actions@) =~= seq![actions@[0]@, actions@[1]@]);
        Ok(actions)
    }

    fn output(&self) -> (r: JobOutput) {
        JobOutput::Archive(
            ArchiveJobOutput {
                backup_run_name: self.backup_run_name.clone(),
                source_dir: self.source_dir.clone(),
                dest_filepath: self.dest_filepath.clone(),
            },
        )
    }
}

} // verus!
