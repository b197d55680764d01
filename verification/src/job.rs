//! Jobs and queues of jobs. A job is a unit of work of a backup run: the
//! backup itself, its archive, or a copy of either to a remote. A queue
//! holds jobs and series of jobs in the order in which they are to run.

use crate::archive::{ArchiveJob, ArchiveJobOutput, ArchiveJobView};
use crate::backup_job::{BackupJob, BackupJobOutput, BackupJobView};
use crate::cmd::{action_views, Action, ActionView};
use crate::error::{Error, ErrorView};
use crate::sync::{
    SyncArchiveJob, SyncArchiveJobOutput, SyncArchiveJobView, SyncBackupJob, SyncBackupJobOutput,
    SyncBackupJobOutputView, SyncBackupJobView,
};
use vstd::prelude::*;

verus! {

/// What a finished job hands back.
pub trait JobOutputTrait {

}

/// What every kind of job offers: the actions that carry it out, what it
/// hands back when all of them succeeded, and whether its failure ends the
/// whole run.
pub trait JobTrait {
    type Output: JobOutputTrait;

    /// Whether a failure of this job ends the whole run.
    spec fn spec_break_on_error(&self) -> bool;

    /// The actions that carry the job out, in order, or the reason why the
    /// job cannot be carried out at all.
    spec fn spec_steps(&self) -> Result<Seq<ActionView>, ErrorView>;

    /// What the job hands back when all its actions succeeded.
    spec fn spec_output(&self) -> JobOutputView;

    /// Whether a failure of this job ends the whole run.
    fn break_on_error(&self) -> (r: bool)
        ensures
            r == self.spec_break_on_error(),
    ;

    /// The actions that carry the job out, in order.
    fn steps(&self) -> (r: Result<Vec<Action>, Error>)
        ensures
            match r {
                Ok(actions) => self.spec_steps() == Ok::<Seq<ActionView>, ErrorView>(
                    action_views(actions@),
                ),
                Err(e) => self.spec_steps() == Err::<Seq<ActionView>, ErrorView>(e@),
            },
    ;

    /// What the job hands back when all its actions succeeded.
    fn output(&self) -> (r: JobOutput)
        ensures
            r@ == self.spec_output(),
    ;
}

/// A unit of work of a backup run.
#[derive(Debug)]
pub enum Job {
    Backup(BackupJob),
    Archive(ArchiveJob),
    SyncBackup(SyncBackupJob),
    SyncArchive(SyncArchiveJob),
}

/// A job as mathematical data.
pub enum JobView {
    Backup(BackupJobView),
    Archive(ArchiveJobView),
    SyncBackup(SyncBackupJobView),
    SyncArchive(SyncArchiveJobView),
}

impl View for Job {
    type V = JobView;

    open spec fn view(&self) -> JobView {
        match *self {
            Job::Backup(job) => JobView::Backup(job@),
            Job::Archive(job) => JobView::Archive(job@),
            Job::SyncBackup(job) => JobView::SyncBackup(job@),
            Job::SyncArchive(job) => JobView::SyncArchive(job@),
        }
    }
}

/// What a finished job hands back.
#[derive(Debug)]
pub enum JobOutput {
    Backup(BackupJobOutput),
    Archive(ArchiveJobOutput),
    SyncBackup(SyncBackupJobOutput),
    SyncArchive(SyncArchiveJobOutput),
}

/// The output of a job as mathematical data.
pub enum JobOutputView {
    Backup(BackupJobView),
    Archive(ArchiveJobView),
    SyncBackup(SyncBackupJobOutputView),
    SyncArchive(SyncArchiveJobView),
}

impl View for JobOutput {
    type V = JobOutputView;

    open spec fn view(&self) -> JobOutputView {
        match *self {
            JobOutput::Backup(out) => JobOutputView::Backup(out@),
            JobOutput::Archive(out) => JobOutputView::Archive(out@),
            JobOutput::SyncBackup(out) => JobOutputView::SyncBackup(out@),
            JobOutput::SyncArchive(out) => JobOutputView::SyncArchive(out@),
        }
    }
}

impl JobView {
    /// Whether a failure of the job ends the whole run.
    pub open spec fn break_on_error(self) -> bool {
        true
    }

    /// The actions that carry the job out, in order, or the reason why the
    /// job cannot be carried out at all.
    pub open spec fn steps(self) -> Result<Seq<ActionView>, ErrorView> {
        match self {
            JobView::Backup(job) => job.steps(),
            JobView::Archive(job) => job.steps(),
            JobView::SyncBackup(job) => job.steps(),
            JobView::SyncArchive(job) => job.steps(),
        }
    }

    /// What the job hands back when all its actions succeeded.
    pub open spec fn output(self) -> JobOutputView {
        match self {
            JobView::Backup(job) => JobOutputView::Backup(job),
            JobView::Archive(job) => JobOutputView::Archive(job),
            JobView::SyncBackup(job) => JobOutputView::SyncBackup(job.output()),
            JobView::SyncArchive(job) => JobOutputView::SyncArchive(job),
        }
    }
}

/// How far a job has come.
#[derive(Clone, Copy, Debug, PartialEq, Eq, Structural)]
pub enum JobStatus {
    Planned,
    Ready,
    Running,
    Completed,
    Failed,
    Canceled,
}

impl JobStatus {
    /// The name of the status.
    pub fn to_string(&self) -> (s: String)
        ensures
            s@ == (match *self {
                JobStatus::Planned => "Planned"@,
                JobStatus::Ready => "Ready"@,
                JobStatus::Running => "Running"@,
                JobStatus::Completed => "Completed"@,
                JobStatus::Failed => "Failed"@,
                JobStatus::Canceled => "Canceled"@,
            }),
    {
        match self {
            JobStatus::Planned => String::from_str("Planned"),
            JobStatus::Ready => String::from_str("Ready"),
            JobStatus::Running => String::from_str("Running"),
            JobStatus::Completed => String::from_str("Completed"),
            JobStatus::Failed => String::from_str("Failed"),
            JobStatus::Canceled => String::from_str("Canceled"),
        }
    }
}

/// An entry of a queue: one job with its status and result, or a series of
/// entries that run one after the other.
#[derive(Debug)]
pub enum JobQueueEntry {
    Job { job: Job, status: JobStatus, result: Option<Result<JobOutput, Error>> },
    Series(Vec<JobQueueEntry>),
}

/// The entries of a run, in the order in which they are to run.
pub type JobQueue = Vec<JobQueueEntry>;

/// What all jobs of a run hand back, or the failure that ended the run.
pub type JobResults = Result<Vec<JobOutput>, Error>;

impl Job {
    /// Whether a failure of this job ends the whole run.
    pub open spec fn spec_break_on_error(&self) -> bool {
        match *self {
            Job::Backup(job) => job.spec_break_on_error(),
            Job::Archive(job) => job.spec_break_on_error(),
            Job::SyncBackup(job) => job.spec_break_on_error(),
            Job::SyncArchive(job) => job.spec_break_on_error(),
        }
    }

    /// The actions that carry the job out.
    pub open spec fn spec_steps(&self) -> Result<Seq<ActionView>, ErrorView> {
        match *self {
            Job::Backup(job) => job.spec_steps(),
            Job::Archive(job) => job.spec_steps(),
            Job::SyncBackup(job) => job.spec_steps(),
            Job::SyncArchive(job) => job.spec_steps(),
        }
    }

    /// What the job hands back when all its actions succeeded.
    pub open spec fn spec_output(&self) -> JobOutputView {
        match *self {
            Job::Backup(job) => job.spec_output(),
            Job::Archive(job) => job.spec_output(),
            Job::SyncBackup(job) => job.spec_output(),
            Job::SyncArchive(job) => job.spec_output(),
        }
    }

    /// Whether a failure of this job ends the whole run.
    pub fn break_on_error(&self) -> (r: bool)
        ensures
            r == self.spec_break_on_error(),
            r == self@.break_on_error(),
    {
        match self {
            Job::Backup(job) => job.break_on_error(),
            Job::Archive(job) => job.break_on_error(),
            Job::SyncBackup(job) => job.break_on_error(),
            Job::SyncArchive(job) => job.break_on_error(),
        }
    }

    /// The actions that carry the job out, in order.
    pub fn steps(&self) -> (r: Result<Vec<Action>, Error>)
        ensures
            match r {
                Ok(actions) => self@.steps() == Ok::<Seq<ActionView>, ErrorView>(
                    action_views(actions@),
                ),
                Err(e) => self@.steps() == Err::<Seq<ActionView>, ErrorView>(e@),
            },
    {
        match self {
            Job::Backup(job) => job.steps(),
            Job::Archive(job) => job.steps(),
            Job::SyncBackup(job) => job.steps(),
            Job::SyncArchive(job) => job.steps(),
        }
    }

    /// What the job hands back when all its actions succeeded.
    pub fn output(&self) -> (r: JobOutput)
        ensures
            r@ == self@.output(),
    {
        match self {
            Job::Backup(job) => job.output(),
            Job::Archive(job) => job.output(),
            Job::SyncBackup(job) => job.output(),
            Job::SyncArchive(job) => job.output(),
        }
    }
}

/// The result of a job as mathematical data.
pub open spec fn result_view(result: Option<Result<JobOutput, Error>>) -> Option<
    Result<JobOutputView, ErrorView>,
> {
    match result {
        None => None,
        Some(Ok(out)) => Some(Ok(out@)),
        Some(Err(e)) => Some(Err(e@)),
    }
}

/// An entry of a queue as mathematical data.
pub enum EntryView {
    Job { job: JobView, status: JobStatus, result: Option<Result<JobOutputView, ErrorView>> },
    Series(Seq<EntryView>),
}

/// The mathematical form of an entry.
pub open spec fn entry_view(entry: JobQueueEntry) -> EntryView
    decreases entry,
{
    match entry {
        JobQueueEntry::Job { job, status, result } => EntryView::Job {
            job: job@,
            status,
            result: result_view(result),
        },
        JobQueueEntry::Series(entries) => EntryView::Series(entries_view(entries@)),
    }
}

/// The mathematical form of a list of entries.
pub open spec fn entries_view(entries: Seq<JobQueueEntry>) -> Seq<EntryView>
    decreases entries,
{
    if entries.len() == 0 {
        Seq::empty()
    } else {
        entries_view(entries.drop_last()).push(entry_view(entries.last()))
    }
}

impl View for JobQueueEntry {
    type V = EntryView;

    open spec fn view(&self) -> EntryView {
        entry_view(*self)
    }
}

/// The entry of a job that is ready to run.
pub open spec fn ready_entry(job: JobView) -> EntryView {
    EntryView::Job { job, status: JobStatus::Ready, result: None }
}

/// The entries of jobs that are ready to run.
pub open spec fn ready_entries(jobs: Seq<JobView>) -> Seq<EntryView> {
    jobs.map_values(|job: JobView| ready_entry(job))
}

/// The list of entries has as many views as entries, each the view of its
/// entry.
pub proof fn lemma_entries_view(entries: Seq<JobQueueEntry>)
    ensures
        entries_view(entries).len() == entries.len(),
        forall|i: int|
            0 <= i < entries.len() ==> #[trigger] entries_view(entries)[i] == entry_view(
                entries[i],
            ),
    decreases entries.len(),
{
    if entries.len() > 0 {
        lemma_entries_view(entries.drop_last());
        assert forall|i: int| 0 <= i < entries.len() implies #[trigger] entries_view(entries)[i]
            == entry_view(entries[i]) by {
            if i < entries.len() - 1 {
                assert(entries.drop_last()[i] == entries[i]);
            }
        }
    }
}

/// Adds the job to the queue, ready to run.
pub fn push_ready(queue: &mut Vec<JobQueueEntry>, job: Job)
    ensures
        entries_view(final(queue)@) == entries_view(old(queue)@).push(ready_entry(job@)),
{
    queue.push(JobQueueEntry::Job { job, status: JobStatus::Ready, result: None });
    proof {
        assert(queue@.drop_last() =~= old(queue)@);
        assert(queue@.len() > 0);
        assert(entry_view(queue@.last()) == ready_entry(job@));
        assert(entries_view(queue@) == entries_view(queue@.drop_last()).push(
            entry_view(queue@.last()),
        ));
    }
}

} // verus!
