//! Backups of directory trees: what kind of backup a run makes and the plan
//! of jobs of one run.

use crate::archive::{ArchiveJob, ArchiveJobView};
use crate::backup_job::{BackupJob, BackupJobView};
use crate::config::{BackupConfig, BackupConfigBackup, BackupConfigRemote, BackupConfigSync};
use crate::error::{option_text, Error, ErrorView};
use crate::job::{
    entries_view, push_ready, ready_entries, ready_entry, EntryView, Job, JobQueueEntry, JobView,
};
use crate::paths::{
    archive_path, backup_path, join, spec_append_extension, spec_archive_path, spec_backup_path,
    spec_join, BACKUP_ARCHIVE_DIRNAME, BACKUP_FULL_DIRNAME, TAR_XZ_EXTENSION, append_extension,
};
use crate::run_name::{BackupRunName, BackupRunNameView};
use crate::schedule::DateTime;
use crate::sync::{
    clone_option_string, Remote, RemoteView, SyncArchiveJob, SyncArchiveJobView, SyncBackupJob,
    SyncBackupJobView,
};
use vstd::prelude::*;

verus! {

/// The kind of a backup: a full copy, or a copy of what changed since the
/// last full copy.
#[derive(Clone, Copy, Debug, PartialEq, Eq, Structural)]
pub enum BackupType {
    Full,
    Incremental,
}

impl BackupType {
    /// The name of the kind.
    pub fn to_string(&self) -> (s: String)
        ensures
            s@ == (match *self {
                BackupType::Full => "full"@,
                BackupType::Incremental => "incremental"@,
            }),
    {
        match self {
            BackupType::Full => String::from_str("full"),
            BackupType::Incremental => String::from_str("incremental"),
        }
    }
}

/// What a run is planned from besides the configuration: the moment of the
/// run, the host and the user that make it, and the storage and source
/// directories with the variables in them filled in.
#[derive(Debug)]
pub struct RunContext {
    pub now: DateTime,
    pub hostname: String,
    pub username: String,
    pub storage_dir: String,
    pub source_dir: String,
}

/// What all jobs of one plan share.
pub struct PlanView {
    pub backup_type: BackupType,
    pub run_name: BackupRunNameView,
    pub source_dir: Seq<char>,
    pub dest_dir: Seq<char>,
    pub archive_path: Seq<char>,
}

/// The remote of a job, taken from the configuration.
pub open spec fn remote_of(remote: BackupConfigRemote) -> RemoteView {
    RemoteView { name: remote.name@, host: remote.host@, user: option_text(remote.user) }
}

/// Where a run stands on a remote: `<remote storage>/<full or incremental>/<run>`.
pub open spec fn spec_remote_run_path(
    remote_storage: Seq<char>,
    backup_type: BackupType,
    run: Seq<char>,
) -> Seq<char> {
    spec_join(spec_join(remote_storage, backup_type.spec_subdir_name()), run)
}

/// Where the archive of a run stands on a remote:
/// `<remote storage>/archive/<run>.tar.xz`.
pub open spec fn spec_remote_archive_path(remote_storage: Seq<char>, run: Seq<char>) -> Seq<char> {
    spec_append_extension(spec_join(spec_join(remote_storage, "archive"@), run), "tar.xz"@)
}

impl PlanView {
    /// What the plan of `backup_type` for `cfg_backup` in `context` shares
    /// among its jobs.
    pub open spec fn of(
        backup_type: BackupType,
        cfg_backup: &BackupConfigBackup,
        context: &RunContext,
    ) -> PlanView {
        let run_name = BackupRunNameView {
            datetime: context.now,
            hostname: context.hostname@,
            username: context.username@,
            backup_name: cfg_backup.name@,
        };
        PlanView {
            backup_type,
            run_name,
            source_dir: context.source_dir@,
            dest_dir: spec_backup_path(context.storage_dir@, backup_type, run_name),
            archive_path: spec_archive_path(context.storage_dir@, run_name),
        }
    }

    /// The backup job of the plan.
    pub open spec fn backup_job(self, incremental_source_dir: Option<Seq<char>>) -> JobView {
        JobView::Backup(
            BackupJobView {
                backup_type: self.backup_type,
                run_name: self.run_name,
                source_dir: self.source_dir,
                incremental_source_dir,
                dest_dir: self.dest_dir,
            },
        )
    }

    /// The archive job of the plan: it packs what the backup job has made.
    pub open spec fn archive_job(self) -> JobView {
        JobView::Archive(
            ArchiveJobView {
                backup_run_name: self.run_name,
                source_dir: self.dest_dir,
                dest_filepath: self.archive_path,
            },
        )
    }

    /// The job that copies the backup to `remote`. For an incremental
    /// backup it links against the remote's copy of the last full backup
    /// `baseline`.
    pub open spec fn sync_backup_job(
        self,
        remote: BackupConfigRemote,
        baseline: Option<Seq<char>>,
    ) -> JobView {
        JobView::SyncBackup(
            SyncBackupJobView {
                remote: remote_of(remote),
                backup_type: self.backup_type,
                backup_run_name: self.run_name,
                source_dir: self.source_dir,
                remote_incremental_source_dir: match baseline {
                    Some(name) => Some(
                        spec_remote_run_path(remote.backup_storage_dir@, BackupType::Full, name),
                    ),
                    None => None,
                },
                remote_dest_dir: spec_remote_run_path(
                    remote.backup_storage_dir@,
                    self.backup_type,
                    self.run_name.spec_to_string(),
                ),
            },
        )
    }

    /// The job that copies the archive to `remote`.
    pub open spec fn sync_archive_job(self, remote: BackupConfigRemote) -> JobView {
        JobView::SyncArchive(
            SyncArchiveJobView {
                backup_run_name: self.run_name,
                remote: remote_of(remote),
                source_filepath: self.archive_path,
                remote_dest_filepath: spec_remote_archive_path(
                    remote.backup_storage_dir@,
                    self.run_name.spec_to_string(),
                ),
            },
        )
    }

    /// The jobs that one sync rule asks for on one remote: for a full
    /// backup the copy of the backup and the copy of the archive, each
    /// where the rule enables it; for an incremental backup the copy of the
    /// backup where the rule enables it.
    pub open spec fn jobs_for_remote(
        self,
        sync: BackupConfigSync,
        remote: BackupConfigRemote,
        baseline: Option<Seq<char>>,
    ) -> Seq<JobView> {
        match self.backup_type {
            BackupType::Full => (if sync.sync_full {
                seq![self.sync_backup_job(remote, None)]
            } else {
                Seq::empty()
            }) + (if sync.sync_archive {
                seq![self.sync_archive_job(remote)]
            } else {
                Seq::empty()
            }),
            BackupType::Incremental => if sync.sync_incremental {
                seq![self.sync_backup_job(remote, baseline)]
            } else {
                Seq::empty()
            },
        }
    }

    /// The jobs that one sync rule asks for on the remotes at `places` of
    /// the configuration, remote by remote.
    pub open spec fn jobs_for_remotes(
        self,
        sync: BackupConfigSync,
        remotes: Seq<BackupConfigRemote>,
        places: Seq<int>,
        baseline: Option<Seq<char>>,
    ) -> Seq<JobView>
        decreases places.len(),
    {
        if places.len() == 0 {
            Seq::empty()
        } else {
            self.jobs_for_remotes(sync, remotes, places.drop_last(), baseline)
                + self.jobs_for_remote(sync, remotes[places.last()], baseline)
        }
    }

    /// The jobs that the sync rules ask for, rule by rule in the order of
    /// the configuration; the first error of a rule that names what is not
    /// configured.
    pub open spec fn jobs_for_syncs(
        self,
        syncs: Seq<BackupConfigSync>,
        config: &BackupConfig,
        baseline: Option<Seq<char>>,
    ) -> Result<Seq<JobView>, ErrorView>
        decreases syncs.len(),
    {
        if syncs.len() == 0 {
            Ok(Seq::empty())
        } else {
            match self.jobs_for_syncs(syncs.drop_last(), config, baseline) {
                Err(e) => Err(e),
                Ok(front) => match syncs.last().spec_remotes(config) {
                    Err(e) => Err(e),
                    Ok(places) => Ok(
                        front + self.jobs_for_remotes(
                            syncs.last(),
                            config.remotes@,
                            places,
                            baseline,
                        ),
                    ),
                },
            }
        }
    }
}

/// The jobs of one backup run, in the order in which they must run: the
/// backup, then for a full backup its archive, then the copies to remotes in
/// the order of the sync rules. An incremental backup needs a full backup
/// to link against; without one there is no plan.
pub open spec fn spec_plan(
    backup_type: BackupType,
    cfg_backup: &BackupConfigBackup,
    config: &BackupConfig,
    context: &RunContext,
    last_full: Option<Seq<char>>,
) -> Result<Seq<JobView>, ErrorView> {
    let plan = PlanView::of(backup_type, cfg_backup, context);
    let baseline = last_full;
    if backup_type == BackupType::Incremental && last_full is None {
        Err(ErrorView::FullBackupNotFound { backup_name: cfg_backup.name@ })
    } else {
        let link = match (backup_type, last_full) {
            (BackupType::Incremental, Some(name)) => Some(
                spec_join(
                    spec_join(
                        spec_join(spec_join(context.storage_dir@, "full"@), context.hostname@),
                        context.username@,
                    ),
                    name,
                ),
            ),
            _ => None,
        };
        let head = if backup_type == BackupType::Full {
            seq![plan.backup_job(link), plan.archive_job()]
        } else {
            seq![plan.backup_job(link)]
        };
        match plan.jobs_for_syncs(cfg_backup.syncs@, config, baseline) {
            Err(e) => Err(e),
            Ok(syncs) => Ok(head + syncs),
        }
    }
}

/// What all jobs of one plan share.
struct Plan {
    backup_type: BackupType,
    run_name: BackupRunName,
    run: String,
    source_dir: String,
    dest_dir: String,
    archive_path: String,
}

impl View for Plan {
    type V = PlanView;

    closed spec fn view(&self) -> PlanView {
        PlanView {
            backup_type: self.backup_type,
            run_name: self.run_name@,
            source_dir: self.source_dir@,
            dest_dir: self.dest_dir@,
            archive_path: self.archive_path@,
        }
    }
}

/// The remote of a job, taken from the configuration.
fn make_remote(remote: &BackupConfigRemote) -> (r: Remote)
    ensures
        r@ == remote_of(*remote),
{
    Remote {
        name: remote.name.clone(),
        host: remote.host.clone(),
        user: clone_option_string(&remote.user),
    }
}

/// Where a run stands on a remote.
fn remote_run_path(remote_storage: &str, backup_type: BackupType, run: &str) -> (r: String)
    ensures
        r@ == spec_remote_run_path(remote_storage@, backup_type, run@),
{
    let dir = join(remote_storage, backup_type.subdir_name());
    join(dir.as_str(), run)
}

impl Plan {
    spec fn wf(&self) -> bool {
        self.run@ == self.run_name@.spec_to_string()
    }

    fn backup_job(&self, incremental_source_dir: Option<String>) -> (job: Job)
        ensures
            job@ == self@.backup_job(option_text(incremental_source_dir)),
    {
        Job::Backup(
            BackupJob {
                backup_type: self.backup_type,
                run_name: self.run_name.clone(),
                source_dir: self.source_dir.clone(),
                incremental_source_dir,
                dest_dir: self.dest_dir.clone(),
            },
        )
    }

    fn archive_job(&self) -> (job: Job)
        ensures
            job@ == self@.archive_job(),
    {
        Job::Archive(
            ArchiveJob {
                backup_run_name: self.run_name.clone(),
                source_dir: self.dest_dir.clone(),
                dest_filepath: self.archive_path.clone(),
            },
        )
    }

    fn sync_backup_job(&self, remote: &BackupConfigRemote, baseline: Option<&str>) -> (job: Job)
        requires
            self.wf(),
        ensures
            job@ == self@.sync_backup_job(
                *remote,
                match baseline {
                    Some(name) => Some(name@),
                    None => None,
                },
            ),
    {
        let link = match baseline {
            Some(name) => Some(
                remote_run_path(remote.backup_storage_dir.as_str(), BackupType::Full, name),
            ),
            None => None,
        };
        Job::SyncBackup(
            SyncBackupJob {
                remote: make_remote(remote),
                backup_type: self.backup_type,
                backup_run_name: self.run_name.clone(),
                source_dir: self.source_dir.clone(),
                remote_incremental_source_dir: link,
                remote_dest_dir: remote_run_path(
                    remote.backup_storage_dir.as_str(),
                    self.backup_type,
                    self.run.as_str(),
                ),
            },
        )
    }

    fn sync_archive_job(&self, remote: &BackupConfigRemote) -> (job: Job)
        requires
            self.wf(),
        ensures
            job@ == self@.sync_archive_job(*remote),
    {
        let dir = join(remote.backup_storage_dir.as_str(), BACKUP_ARCHIVE_DIRNAME);
        let file = join(dir.as_str(), self.run.as_str());
        Job::SyncArchive(
            SyncArchiveJob {
                backup_run_name: self.run_name.clone(),
                remote: make_remote(remote),
                source_filepath: self.archive_path.clone(),
                remote_dest_filepath: append_extension(file.as_str(), TAR_XZ_EXTENSION),
            },
        )
    }

    /// Adds the jobs that one sync rule asks for on one remote.
    fn push_jobs_for_remote(
        &self,
        series: &mut Vec<JobQueueEntry>,
        sync: &BackupConfigSync,
        remote: &BackupConfigRemote,
        baseline: Option<&str>,
    )
        requires
            self.wf(),
        ensures
            entries_view(final(series)@) == entries_view(old(series)@) + ready_entries(
                self@.jobs_for_remote(
                    *sync,
                    *remote,
                    match baseline {
                        Some(name) => Some(name@),
                        None => None,
                    },
                ),
            ),
    {
        let ghost before = entries_view(series@);
        let ghost base = match baseline {
            Some(name) => Some(name@),
            None => None,
        };
        match self.backup_type {
            BackupType::Full => {
                if sync.sync_full {
                    push_ready(series, self.sync_backup_job(remote, None));
                }
                if sync.sync_archive {
                    push_ready(series, self.sync_archive_job(remote));
                }
            },
            BackupType::Incremental => {
                if sync.sync_incremental {
                    push_ready(series, self.sync_backup_job(remote, baseline));
                }
            },
        }
        assert(entries_view(series@) =~= before + ready_entries(
            self@.jobs_for_remote(*sync, *remote, base),
        ));
    }
}

impl Plan {
    /// Adds the jobs that one sync rule asks for on its remotes.
    fn push_jobs_for_remotes(
        &self,
        series: &mut Vec<JobQueueEntry>,
        sync: &BackupConfigSync,
        remotes: &Vec<&BackupConfigRemote>,
        baseline: Option<&str>,
        Ghost(configured): Ghost<Seq<BackupConfigRemote>>,
        Ghost(places): Ghost<Seq<int>>,
    )
        requires
            self.wf(),
            remotes@.len() == places.len(),
            forall|j: int|
                0 <= j < places.len() ==> 0 <= #[trigger] places[j] < configured.len()
                    && *remotes@[j] == configured[places[j]],
        ensures
            entries_view(final(series)@) == entries_view(old(series)@) + ready_entries(
                self@.jobs_for_remotes(
                    *sync,
                    configured,
                    places,
                    match baseline {
                        Some(name) => Some(name@),
                        None => None,
                    },
                ),
            ),
    {
        let ghost before = entries_view(series@);
        let ghost base = match baseline {
            Some(name) => Some(name@),
            None => None,
        };
        let mut k: usize = 0;
        assert(before =~= before + ready_entries(
            self@.jobs_for_remotes(*sync, configured, places.take(0), base),
        ));
        while k < remotes.len()
            invariant
                k <= remotes.len(),
                self.wf(),
                remotes@.len() == places.len(),
                base == match baseline {
                    Some(name) => Some(name@),
                    None => None,
                },
                forall|j: int|
                    0 <= j < places.len() ==> 0 <= #[trigger] places[j] < configured.len()
                        && *remotes@[j] == configured[places[j]],
                entries_view(series@) == before + ready_entries(
                    self@.jobs_for_remotes(*sync, configured, places.take(k as int), base),
                ),
            decreases remotes.len() - k,
        {
            proof {
                assert(places.take(k + 1).drop_last() == places.take(k as int));
                assert(places.take(k + 1).last() == places[k as int]);
            }
            self.push_jobs_for_remote(series, sync, remotes[k], baseline);
            proof {
                let done = self@.jobs_for_remotes(*sync, configured, places.take(k as int), base);
                let more = self@.jobs_for_remote(*sync, *remotes@[k as int], base);
                assert(before + ready_entries(done) + ready_entries(more) =~= before
                    + ready_entries(done + more));
            }
            k += 1;
        }
        assert(places.take(remotes.len() as int) == places);
    }

    /// Adds the jobs that the sync rules ask for, rule by rule.
    fn push_jobs_for_syncs(
        &self,
        series: &mut Vec<JobQueueEntry>,
        syncs: &Vec<BackupConfigSync>,
        config: &BackupConfig,
        baseline: Option<&str>,
    ) -> (r: Result<(), Error>)
        requires
            self.wf(),
        ensures
            ({
                let base = match baseline {
                    Some(name) => Some(name@),
                    None => None,
                };
                match r {
                    Ok(_) => self@.jobs_for_syncs(syncs@, config, base) matches Ok(jobs)
                        && entries_view(final(series)@) == entries_view(old(series)@)
                        + ready_entries(jobs),
                    Err(e) => self@.jobs_for_syncs(syncs@, config, base) == Err::<
                        Seq<JobView>,
                        ErrorView,
                    >(e@),
                }
            }),
    {
        let ghost before = entries_view(series@);
        let ghost base = match baseline {
            Some(name) => Some(name@),
            None => None,
        };
        let mut i: usize = 0;
        assert(before =~= before + ready_entries(Seq::<JobView>::empty()));
        while i < syncs.len()
            invariant
                i <= syncs.len(),
                self.wf(),
                base == match baseline {
                    Some(name) => Some(name@),
                    None => None,
                },
                self@.jobs_for_syncs(syncs@.take(i as int), config, base) matches Ok(jobs)
                    && entries_view(series@) == before + ready_entries(jobs),
            decreases syncs.len() - i,
        {
            let sync = &syncs[i];
            let ghost front = self@.jobs_for_syncs(syncs@.take(i as int), config, base)->Ok_0;
            proof {
                assert(syncs@.take(i + 1).drop_last() == syncs@.take(i as int));
                assert(syncs@.take(i + 1).last() == *sync);
            }
            let remotes = match sync.remotes(config) {
                Ok(remotes) => remotes,
                Err(e) => {
                    proof {
                        lemma_syncs_error(self@, syncs@, config, base, i + 1);
                    }
                    return Err(e);
                },
            };
            let ghost places = sync.spec_remotes(config)->Ok_0;
            self.push_jobs_for_remotes(
                series,
                sync,
                &remotes,
                baseline,
                Ghost(config.remotes@),
                Ghost(places),
            );
            proof {
                let all = self@.jobs_for_remotes(*sync, config.remotes@, places, base);
                assert(before + ready_entries(front) + ready_entries(all) =~= before
                    + ready_entries(front + all));
            }
            i += 1;
        }
        assert(syncs@.take(syncs.len() as int) == syncs@);
        Ok(())
    }
}

impl BackupJob {
    /// Plans one run of the backup `cfg_backup`: the backup job, for a full
    /// backup the archive job, and the jobs that copy to the remotes of the
    /// sync rules, all ready to run, as one series in that order.
    /// `last_full` is the name of the last full backup run of this backup
    /// by this user on this host, if there is one.
    ///
    /// There is no plan for an incremental backup where no full backup
    /// exists, and none where a sync rule names a remote or group that is
    /// not configured.
    pub fn plan(
        backup_type: BackupType,
        cfg_backup: &BackupConfigBackup,
        config: &BackupConfig,
        context: &RunContext,
        last_full: Option<&str>,
    ) -> (r: Result<JobQueueEntry, Error>)
        ensures
            ({
                let baseline = match last_full {
                    Some(name) => Some(name@),
                    None => None,
                };
                match r {
                    Ok(entry) => spec_plan(backup_type, cfg_backup, config, context, baseline)
                        matches Ok(jobs) && entry@ == EntryView::Series(ready_entries(jobs)),
                    Err(e) => spec_plan(backup_type, cfg_backup, config, context, baseline) == Err::<
                        Seq<JobView>,
                        ErrorView,
                    >(e@),
                }
            }),
    {
        let run_name = BackupRunName::new(
            context.now,
            context.hostname.as_str(),
            context.username.as_str(),
            cfg_backup.name.as_str(),
        );
        let dest_dir = backup_path(context.storage_dir.as_str(), backup_type, &run_name);
        let archive = archive_path(context.storage_dir.as_str(), &run_name);
        let run = run_name.to_string();
        let plan = Plan {
            backup_type,
            run_name,
            run,
            source_dir: context.source_dir.clone(),
            dest_dir,
            archive_path: archive,
        };
        assert(plan@ == PlanView::of(backup_type, cfg_backup, context));
        let link = match backup_type {
            BackupType::Full => None,
            BackupType::Incremental => match last_full {
                None => {
                    return Err(
                        Error::FullBackupNotFound { backup_name: cfg_backup.name.clone() },
                    );
                },
                Some(name) => {
                    let a = join(context.storage_dir.as_str(), BACKUP_FULL_DIRNAME);
                    let b = join(a.as_str(), context.hostname.as_str());
                    let c = join(b.as_str(), context.username.as_str());
                    Some(join(c.as_str(), name))
                },
            },
        };
        let baseline = last_full;
        let ghost base = match last_full {
            Some(name) => Some(name@),
            None => None,
        };
        let mut series: Vec<JobQueueEntry> = Vec::new();
        assert(entries_view(series@) =~= ready_entries(Seq::empty()));
        let ghost link_text = option_text(link);
        push_ready(&mut series, plan.backup_job(link));
        if backup_type == BackupType::Full {
            push_ready(&mut series, plan.archive_job());
        }
        let ghost head = if backup_type == BackupType::Full {
            seq![plan@.backup_job(link_text), plan@.archive_job()]
        } else {
            seq![plan@.backup_job(link_text)]
        };
        assert(entries_view(series@) =~= ready_entries(head));
        match plan.push_jobs_for_syncs(&mut series, &cfg_backup.syncs, config, baseline) {
            Ok(_) => {},
            Err(e) => {
                return Err(e);
            },
        }
        proof {
            let syncs = plan@.jobs_for_syncs(cfg_backup.syncs@, config, base)->Ok_0;
            assert(ready_entries(head) + ready_entries(syncs) =~= ready_entries(head + syncs));
        }
        Ok(JobQueueEntry::Series(series))
    }
}

/// Where the rules up to the `k`-th ask for jobs and the `k`-th names what
/// is not configured, all rules together give the error of the `k`-th.
proof fn lemma_syncs_error(
    plan: PlanView,
    syncs: Seq<BackupConfigSync>,
    config: &BackupConfig,
    baseline: Option<Seq<char>>,
    k: int,
)
    requires
        1 <= k <= syncs.len(),
        plan.jobs_for_syncs(syncs.take(k - 1), config, baseline) is Ok,
        syncs[k - 1].spec_remotes(config) is Err,
    ensures
        plan.jobs_for_syncs(syncs, config, baseline) == Err::<Seq<JobView>, ErrorView>(
            syncs[k - 1].spec_remotes(config)->Err_0,
        ),
{
    assert(syncs.take(k).drop_last() == syncs.take(k - 1));
    assert(syncs.take(k).last() == syncs[k - 1]);
    lemma_syncs_error_lasts(plan, syncs, config, baseline, k);
}

/// An error of the first `k` rules is the error of all rules.
proof fn lemma_syncs_error_lasts(
    plan: PlanView,
    syncs: Seq<BackupConfigSync>,
    config: &BackupConfig,
    baseline: Option<Seq<char>>,
    k: int,
)
    requires
        0 <= k <= syncs.len(),
        plan.jobs_for_syncs(syncs.take(k), config, baseline) is Err,
    ensures
        plan.jobs_for_syncs(syncs, config, baseline) == plan.jobs_for_syncs(
            syncs.take(k),
            config,
            baseline,
        ),
    decreases syncs.len() - k,
{
    if k == syncs.len() {
        assert(syncs.take(k) == syncs);
    } else {
        assert(syncs.take(k + 1).drop_last() == syncs.take(k));
        lemma_syncs_error_lasts(plan, syncs, config, baseline, k + 1);
    }
}

} // verus!
