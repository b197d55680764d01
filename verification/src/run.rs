//! What a run of the scheduler is to do: the queue of the jobs of the
//! backups that are due, or of the backups that are asked for by name.

use crate::backup::{spec_plan, BackupType, RunContext};
use crate::backup_job::BackupJob;
use crate::cli::BackupCommand;
use crate::config::{backup_names, find_name, BackupConfig, BackupConfigBackup};
use crate::due::{backup_job_due, entry_texts, find_last_backup, spec_job_due, spec_last_backup};
use crate::error::{Error, ErrorView};
use crate::host::{datetime_now, hostname, names_no_variable, username};
use crate::job::{entries_view, ready_entries, EntryView, JobQueueEntry, JobView};
use crate::schedule::DateTime;
use crate::text::str_eq;
use vstd::prelude::*;

verus! {

/// The name that stands for every configured backup.
pub const ALL: &'static str = "all";

/// What a run knows of the machine: the moment of the run, the host and the
/// user that make it, and the storage directory with the variables in its
/// path filled in.
#[derive(Debug)]
pub struct Machine {
    pub now: DateTime,
    pub hostname: String,
    pub username: String,
    pub storage_dir: String,
}

/// What a run knows of the machine, made of what the machine gave: there
/// is none without the moment, the name of the host or the storage
/// directory.
pub fn machine_of(
    now: Option<DateTime>,
    hostname: Option<String>,
    username: String,
    storage_dir: Option<String>,
) -> (r: Option<Machine>)
    ensures
        r is Some <==> now is Some && hostname is Some && storage_dir is Some,
        r matches Some(machine) ==> machine.now == now->0 && machine.hostname == hostname->0
            && machine.username == username && machine.storage_dir == storage_dir->0,
{
    match (now, hostname, storage_dir) {
        (Some(now), Some(hostname), Some(storage_dir)) => Some(
            Machine { now, hostname, username, storage_dir },
        ),
        _ => None,
    }
}

/// What this run knows of the machine it runs on: the present moment, the
/// names that the operating system gives for the host and the user, and the
/// storage directory of the configuration with the variables of the
/// environment filled in. `None` where the moment is out of the calendar's
/// range, the host has no name or a variable is not set.
pub fn this_machine(config: &BackupConfig) -> (r: Option<Machine>)
    ensures
        r matches Some(machine) ==> machine.now.wf() && (names_no_variable(config.backup_storage_dir@)
            ==> machine.storage_dir@ == config.backup_storage_dir@),
{
    machine_of(datetime_now(), hostname(), username(), config.backup_storage_dir_path())
}

/// What a run knows of one backup: its source directory with the variables
/// in its path filled in, and the names that stand in the directories of
/// its full and of its incremental backups.
#[derive(Debug)]
pub struct BackupState {
    pub source_dir: String,
    pub full_runs: Vec<String>,
    pub incremental_runs: Vec<String>,
}

/// The context of the run of one backup.
pub open spec fn context_of(machine: &Machine, state: BackupState) -> RunContext {
    RunContext {
        now: machine.now,
        hostname: machine.hostname,
        username: machine.username,
        storage_dir: machine.storage_dir,
        source_dir: state.source_dir,
    }
}

/// The context of the run of one backup.
pub fn run_context(machine: &Machine, state: &BackupState) -> (r: RunContext)
    ensures
        r == context_of(machine, *state),
{
    RunContext {
        now: machine.now,
        hostname: machine.hostname.clone(),
        username: machine.username.clone(),
        storage_dir: machine.storage_dir.clone(),
        source_dir: state.source_dir.clone(),
    }
}

/// The series of the jobs that are due among the first `count` backups of
/// the configuration, one series for each backup that has something due, in
/// the order of the configuration; the first error of a backup that cannot
/// be planned.
pub open spec fn spec_scheduled(
    config: &BackupConfig,
    machine: &Machine,
    states: Seq<BackupState>,
    count: int,
) -> Result<Seq<EntryView>, ErrorView>
    decreases count,
{
    if count <= 0 || count > config.backups@.len() || count > states.len() {
        Ok(Seq::empty())
    } else {
        match spec_scheduled(config, machine, states, count - 1) {
            Err(e) => Err(e),
            Ok(front) => {
                let state = states[count - 1];
                match spec_job_due(
                    &config.backups@[count - 1],
                    config,
                    &context_of(machine, state),
                    entry_texts(state.full_runs@),
                    entry_texts(state.incremental_runs@),
                ) {
                    Err(e) => Err(e),
                    Ok(None) => Ok(front),
                    Ok(Some(jobs)) => Ok(front.push(EntryView::Series(ready_entries(jobs)))),
                }
            },
        }
    }
}

/// An error among the first `k` backups is the error of all.
proof fn lemma_scheduled_error(
    config: &BackupConfig,
    machine: &Machine,
    states: Seq<BackupState>,
    k: int,
)
    requires
        0 <= k <= config.backups@.len(),
        config.backups@.len() == states.len(),
        spec_scheduled(config, machine, states, k) is Err,
    ensures
        spec_scheduled(config, machine, states, states.len() as int) == spec_scheduled(
            config,
            machine,
            states,
            k,
        ),
    decreases states.len() - k,
{
    if k < states.len() {
        lemma_scheduled_error(config, machine, states, k + 1);
    }
}

/// The queue of the backups that are due: for each configured backup, in
/// order, the series of its jobs where something is due. `states` holds
/// what is known of each configured backup, in the same order.
pub fn run_backup_scheduled(config: &BackupConfig, machine: &Machine, states: &Vec<BackupState>) -> (r:
    Result<Vec<JobQueueEntry>, Error>)
    requires
        states@.len() == config.backups@.len(),
    ensures
        match spec_scheduled(config, machine, states@, states@.len() as int) {
            Err(e) => r matches Err(found) && found@ == e,
            Ok(entries) => r matches Ok(queue) && entries_view(queue@) == entries,
        },
{
    let mut queue: Vec<JobQueueEntry> = Vec::new();
    let mut i: usize = 0;
    assert(entries_view(queue@) =~= Seq::<EntryView>::empty());
    while i < states.len()
        invariant
            i <= states.len(),
            states@.len() == config.backups@.len(),
            spec_scheduled(config, machine, states@, i as int) matches Ok(entries)
                && entries_view(queue@) == entries,
        decreases states.len() - i,
    {
        let context = run_context(machine, &states[i]);
        let ghost before = queue@;
        match backup_job_due(
            &config.backups[i],
            config,
            &context,
            &states[i].full_runs,
            &states[i].incremental_runs,
        ) {
            Err(e) => {
                proof {
                    lemma_scheduled_error(config, machine, states@, i + 1);
                }
                return Err(e);
            },
            Ok(None) => {},
            Ok(Some(entry)) => {
                queue.push(entry);
                assert(queue@.drop_last() =~= before);
            },
        }
        i += 1;
    }
    Ok(queue)
}

/// The series of the jobs of a backup of kind `backup_type` of the backup
/// at place `place` of the configuration, made now.
pub open spec fn spec_manual_at(
    config: &BackupConfig,
    machine: &Machine,
    states: Seq<BackupState>,
    backup_type: BackupType,
    place: int,
) -> Result<EntryView, ErrorView> {
    let state = states[place];
    let context = context_of(machine, state);
    let backup = &config.backups@[place];
    match spec_plan(
        backup_type,
        backup,
        config,
        &context,
        spec_last_backup(
            entry_texts(state.full_runs@),
            machine.hostname@,
            machine.username@,
            backup.name@,
        ),
    ) {
        Err(e) => Err(e),
        Ok(jobs) => Ok(EntryView::Series(ready_entries(jobs))),
    }
}

/// The series of the backups of kind `backup_type` of the first `count`
/// backups of the configuration, made now, in the order of the
/// configuration.
pub open spec fn spec_manual_all(
    config: &BackupConfig,
    machine: &Machine,
    states: Seq<BackupState>,
    backup_type: BackupType,
    count: int,
) -> Result<Seq<EntryView>, ErrorView>
    decreases count,
{
    if count <= 0 || count > config.backups@.len() || count > states.len() {
        Ok(Seq::empty())
    } else {
        match spec_manual_all(config, machine, states, backup_type, count - 1) {
            Err(e) => Err(e),
            Ok(front) => match spec_manual_at(config, machine, states, backup_type, count - 1) {
                Err(e) => Err(e),
                Ok(entry) => Ok(front.push(entry)),
            },
        }
    }
}

/// An error among the first `k` backups is the error of all.
proof fn lemma_manual_error(
    config: &BackupConfig,
    machine: &Machine,
    states: Seq<BackupState>,
    backup_type: BackupType,
    k: int,
)
    requires
        0 <= k <= config.backups@.len(),
        config.backups@.len() == states.len(),
        spec_manual_all(config, machine, states, backup_type, k) is Err,
    ensures
        spec_manual_all(config, machine, states, backup_type, states.len() as int)
            == spec_manual_all(config, machine, states, backup_type, k),
    decreases states.len() - k,
{
    if k < states.len() {
        lemma_manual_error(config, machine, states, backup_type, k + 1);
    }
}

/// The queue of the backups that `name` asks for, made now whether they are
/// due or not: every configured backup where `name` is `all`, else the
/// configured backup of that name.
pub open spec fn spec_manual(
    config: &BackupConfig,
    machine: &Machine,
    states: Seq<BackupState>,
    backup_type: BackupType,
    name: Seq<char>,
) -> Result<Seq<EntryView>, ErrorView> {
    if name == "all"@ {
        spec_manual_all(config, machine, states, backup_type, states.len() as int)
    } else {
        let place = find_name(backup_names(config.backups@), name, 0);
        if place < config.backups@.len() {
            match spec_manual_at(config, machine, states, backup_type, place) {
                Err(e) => Err(e),
                Ok(entry) => Ok(seq![entry]),
            }
        } else {
            Err(ErrorView::ConfigReferenceNotFound { schema: "[backup]"@, name })
        }
    }
}

/// Plans a backup of kind `backup_type` of the backup at place `place`.
fn plan_at(
    config: &BackupConfig,
    machine: &Machine,
    states: &Vec<BackupState>,
    backup_type: BackupType,
    place: usize,
) -> (r: Result<JobQueueEntry, Error>)
    requires
        states@.len() == config.backups@.len(),
        place < states@.len(),
    ensures
        match spec_manual_at(config, machine, states@, backup_type, place as int) {
            Err(e) => r matches Err(found) && found@ == e,
            Ok(entry) => r matches Ok(found) && found@ == entry,
        },
{
    let context = run_context(machine, &states[place]);
    let backup = &config.backups[place];
    let last_full = find_last_backup(
        &states[place].full_runs,
        machine.hostname.as_str(),
        machine.username.as_str(),
        backup.name.as_str(),
    );
    let baseline = match &last_full {
        Some(name) => Some(name.as_str()),
        None => None,
    };
    BackupJob::plan(backup_type, backup, config, &context, baseline)
}

/// The place of the configured backup `name`: the first of that name.
fn backup_place(config: &BackupConfig, name: &str) -> (r: Option<usize>)
    ensures
        match r {
            Some(place) => place == find_name(backup_names(config.backups@), name@, 0) && place
                < config.backups@.len(),
            None => find_name(backup_names(config.backups@), name@, 0) >= config.backups@.len(),
        },
{
    let ghost names = backup_names(config.backups@);
    let mut i: usize = 0;
    while i < config.backups.len()
        invariant
            i <= config.backups.len(),
            names == backup_names(config.backups@),
            find_name(names, name@, 0) == find_name(names, name@, i as int),
        decreases config.backups.len() - i,
    {
        if str_eq(config.backups[i].name.as_str(), name) {
            return Some(i);
        }
        i += 1;
    }
    None
}

/// The queue of the backups that `name` asks for, of kind `backup_type`,
/// made now whether they are due or not. `states` holds what is known of
/// each configured backup, in the order of the configuration.
pub fn run_backup_manual(
    config: &BackupConfig,
    machine: &Machine,
    states: &Vec<BackupState>,
    backup_type: BackupType,
    name: &str,
) -> (r: Result<Vec<JobQueueEntry>, Error>)
    requires
        states@.len() == config.backups@.len(),
    ensures
        match spec_manual(config, machine, states@, backup_type, name@) {
            Err(e) => r matches Err(found) && found@ == e,
            Ok(entries) => r matches Ok(queue) && entries_view(queue@) == entries,
        },
{
    let mut queue: Vec<JobQueueEntry> = Vec::new();
    assert(entries_view(queue@) =~= Seq::<EntryView>::empty());
    if str_eq(name, ALL) {
        let mut i: usize = 0;
        while i < states.len()
            invariant
                i <= states.len(),
                states@.len() == config.backups@.len(),
                name@ == "all"@,
                spec_manual_all(config, machine, states@, backup_type, i as int) matches Ok(entries)
                    && entries_view(queue@) == entries,
            decreases states.len() - i,
        {
            let ghost before = queue@;
            match plan_at(config, machine, states, backup_type, i) {
                Err(e) => {
                    proof {
                        lemma_manual_error(config, machine, states@, backup_type, i + 1);
                    }
                    return Err(e);
                },
                Ok(entry) => {
                    queue.push(entry);
                    assert(queue@.drop_last() =~= before);
                },
            }
            i += 1;
        }
        Ok(queue)
    } else {
        match backup_place(config, name) {
            None => Err(Error::reference_not_found("[backup]", name)),
            Some(place) => {
                let entry = plan_at(config, machine, states, backup_type, place)?;
                queue.push(entry);
                assert(queue@.drop_last() =~= Seq::<JobQueueEntry>::empty());
                assert(entries_view(queue@) =~= seq![queue@[0]@]);
                Ok(queue)
            },
        }
    }
}

/// The queue of a run of `subcmd`: the backups that are due, or the backups
/// asked for by name, in full or incremental.
pub open spec fn spec_run_backup(
    subcmd: &BackupCommand,
    config: &BackupConfig,
    machine: &Machine,
    states: Seq<BackupState>,
) -> Result<Seq<EntryView>, ErrorView> {
    match *subcmd {
        BackupCommand::Scheduled => spec_scheduled(config, machine, states, states.len() as int),
        BackupCommand::Full(cmd) => spec_manual(
            config,
            machine,
            states,
            BackupType::Full,
            cmd.name@,
        ),
        BackupCommand::Incremental(cmd) => spec_manual(
            config,
            machine,
            states,
            BackupType::Incremental,
            cmd.name@,
        ),
    }
}

/// The queue of a run of `subcmd`.
pub fn run_backup(
    subcmd: &BackupCommand,
    config: &BackupConfig,
    machine: &Machine,
    states: &Vec<BackupState>,
) -> (r: Result<Vec<JobQueueEntry>, Error>)
    requires
        states@.len() == config.backups@.len(),
    ensures
        match spec_run_backup(subcmd, config, machine, states@) {
            Err(e) => r matches Err(found) && found@ == e,
            Ok(entries) => r matches Ok(queue) && entries_view(queue@) == entries,
        },
{
    match subcmd {
        BackupCommand::Scheduled => run_backup_scheduled(config, machine, states),
        BackupCommand::Full(cmd) => run_backup_manual(
            config,
            machine,
            states,
            BackupType::Full,
            cmd.name.as_str(),
        ),
        BackupCommand::Incremental(cmd) => run_backup_manual(
            config,
            machine,
            states,
            BackupType::Incremental,
            cmd.name.as_str(),
        ),
    }
}

} // verus!
