//! Whether a backup is due: a full backup where none exists or the schedule
//! of full backups has come round since the last one; else an incremental
//! backup where its schedule has come round since the last backup of
//! either kind; else nothing.

use crate::backup::{spec_plan, BackupType, RunContext};
use crate::backup_job::BackupJob;
use crate::config::{BackupConfig, BackupConfigBackup, ScheduleView};
use crate::error::{Error, ErrorView};
use crate::job::{ready_entries, EntryView, JobQueueEntry, JobView};
use crate::run_name::{spec_parse_run_name, BackupRunName};
use crate::schedule::{is_due, next_occurrence, spec_is_due, spec_next_occurrence, DateTime};
use crate::text::{
    chars_lt, lemma_lex_lt_irreflexive, lemma_lex_lt_transitive, lemma_lex_total, lex_lt, str_eq,
    to_chars,
};
use vstd::prelude::*;

verus! {

/// Whether `entry` is the name of a run of `backup_name` made by `username`
/// on `hostname`.
pub open spec fn is_run_of(
    entry: Seq<char>,
    hostname: Seq<char>,
    username: Seq<char>,
    backup_name: Seq<char>,
) -> bool {
    spec_parse_run_name(entry) matches Some(name) && name.hostname == hostname && name.username
        == username && name.backup_name == backup_name
}

/// The last of the runs of `backup_name` by `username` on `hostname` among
/// `entries`: the name of such a run that no other comes after in
/// lexicographic order, which is the order of their moments.
pub open spec fn spec_last_backup(
    entries: Seq<Seq<char>>,
    hostname: Seq<char>,
    username: Seq<char>,
    backup_name: Seq<char>,
) -> Option<Seq<char>>
    decreases entries.len(),
{
    if entries.len() == 0 {
        None
    } else {
        let front = spec_last_backup(entries.drop_last(), hostname, username, backup_name);
        let entry = entries.last();
        if is_run_of(entry, hostname, username, backup_name) && (front matches Some(best)
            ==> !lex_lt(entry, best)) {
            Some(entry)
        } else {
            front
        }
    }
}

/// The texts of a list of strings.
pub open spec fn entry_texts(entries: Seq<String>) -> Seq<Seq<char>> {
    entries.map_values(|s: String| s@)
}

/// The last run that was found is a run of the backup, the user and the
/// host that were asked for.
pub proof fn lemma_last_backup_is_run(
    entries: Seq<Seq<char>>,
    hostname: Seq<char>,
    username: Seq<char>,
    backup_name: Seq<char>,
)
    ensures
        spec_last_backup(entries, hostname, username, backup_name) matches Some(name) ==> is_run_of(
            name,
            hostname,
            username,
            backup_name,
        ) && entries.contains(name),
        spec_last_backup(entries, hostname, username, backup_name) is None ==> forall|i: int|
            0 <= i < entries.len() ==> !is_run_of(
                #[trigger] entries[i],
                hostname,
                username,
                backup_name,
            ),
    decreases entries.len(),
{
    if entries.len() > 0 {
        lemma_last_backup_is_run(entries.drop_last(), hostname, username, backup_name);
        let front = spec_last_backup(entries.drop_last(), hostname, username, backup_name);
        if front is Some {
            let best = front->0;
            let k = choose|k: int|
                0 <= k < entries.drop_last().len() && entries.drop_last()[k] == best;
            assert(entries[k] == best);
        }
        assert(entries[entries.len() - 1] == entries.last());
        if spec_last_backup(entries, hostname, username, backup_name) is None {
            assert forall|i: int| 0 <= i < entries.len() implies !is_run_of(
                #[trigger] entries[i],
                hostname,
                username,
                backup_name,
            ) by {
                if i < entries.len() - 1 {
                    assert(entries.drop_last()[i] == entries[i]);
                }
            }
        }
    }
}

/// No run of the backup, the user and the host that were asked for comes
/// after the last run that was found.
pub proof fn lemma_last_backup_is_last(
    entries: Seq<Seq<char>>,
    hostname: Seq<char>,
    username: Seq<char>,
    backup_name: Seq<char>,
    i: int,
)
    requires
        0 <= i < entries.len(),
        is_run_of(entries[i], hostname, username, backup_name),
    ensures
        spec_last_backup(entries, hostname, username, backup_name) matches Some(best) && !lex_lt(
            best,
            entries[i],
        ),
    decreases entries.len(),
{
    let front = entries.drop_last();
    let found = spec_last_backup(front, hostname, username, backup_name);
    let entry = entries.last();
    if i == entries.len() - 1 {
        lemma_lex_lt_irreflexive(entry);
        if found is Some && lex_lt(entry, found->0) {
            // the entry does not replace what was found, and does not come after it
            if lex_lt(found->0, entry) {
                lemma_lex_lt_transitive(entry, found->0, entry);
            }
        }
    } else {
        assert(front[i] == entries[i]);
        lemma_last_backup_is_last(front, hostname, username, backup_name, i);
        let best = found->0;
        if is_run_of(entry, hostname, username, backup_name) && !lex_lt(entry, best) {
            // the entry replaces what was found; it comes after nothing that came before
            if lex_lt(entry, entries[i]) {
                if best != entries[i] {
                    lemma_lex_total(best, entries[i]);
                    lemma_lex_lt_transitive(entry, entries[i], best);
                }
            }
        }
    }
}

/// Whether `entry` is the name of a run of `backup_name` made by `username`
/// on `hostname`.
pub fn names_run_of(entry: &str, hostname: &str, username: &str, backup_name: &str) -> (r: bool)
    ensures
        r == is_run_of(entry@, hostname@, username@, backup_name@),
{
    match BackupRunName::parse(entry) {
        Ok(name) => str_eq(name.hostname.as_str(), hostname) && str_eq(
            name.username.as_str(),
            username,
        ) && str_eq(name.backup_name.as_str(), backup_name),
        Err(_) => false,
    }
}

/// The name of the last run of `backup_name` by `username` on `hostname`
/// among the names `entries`; `None` where there is no such run.
pub fn find_last_backup(
    entries: &Vec<String>,
    hostname: &str,
    username: &str,
    backup_name: &str,
) -> (r: Option<String>)
    ensures
        match r {
            Some(name) => spec_last_backup(
                entry_texts(entries@),
                hostname@,
                username@,
                backup_name@,
            ) == Some(name@),
            None => spec_last_backup(entry_texts(entries@), hostname@, username@, backup_name@)
                is None,
        },
{
    let ghost texts = entry_texts(entries@);
    let mut best: Option<usize> = None;
    let mut i: usize = 0;
    while i < entries.len()
        invariant
            i <= entries.len(),
            texts == entry_texts(entries@),
            match best {
                Some(k) => k < i && spec_last_backup(
                    texts.take(i as int),
                    hostname@,
                    username@,
                    backup_name@,
                ) == Some(texts[k as int]),
                None => spec_last_backup(texts.take(i as int), hostname@, username@, backup_name@)
                    is None,
            },
        decreases entries.len() - i,
    {
        proof {
            assert(texts.take(i + 1).drop_last() == texts.take(i as int));
            assert(texts.take(i + 1).last() == entries@[i as int]@);
        }
        if names_run_of(entries[i].as_str(), hostname, username, backup_name) {
            let later = match best {
                Some(k) => {
                    let a = to_chars(entries[i].as_str());
                    let b = to_chars(entries[k].as_str());
                    !chars_lt(&a, &b)
                },
                None => true,
            };
            if later {
                best = Some(i);
            }
        }
        i += 1;
    }
    assert(texts.take(entries.len() as int) == texts);
    match best {
        Some(k) => Some(entries[k].clone()),
        None => None,
    }
}

/// The moment of the run that `name` names.
pub open spec fn run_time(name: Option<Seq<char>>) -> Option<DateTime> {
    match name {
        Some(name) => match spec_parse_run_name(name) {
            Some(run) => Some(run.datetime),
            None => None,
        },
        None => None,
    }
}

/// The moment from which the next incremental backup counts: that of the
/// last incremental backup where there is one later than the last full
/// backup, else that of the last full backup.
pub open spec fn spec_baseline(last_full: DateTime, last_incremental: Option<DateTime>) -> DateTime {
    match last_incremental {
        Some(t) => if last_full.spec_before(t) {
            t
        } else {
            last_full
        },
        None => last_full,
    }
}

/// The moment from which the next incremental backup counts.
pub fn baseline(last_full: DateTime, last_incremental: Option<DateTime>) -> (r: DateTime)
    ensures
        r == spec_baseline(last_full, last_incremental),
{
    match last_incremental {
        Some(t) => if last_full.before(&t) {
            t
        } else {
            last_full
        },
        None => last_full,
    }
}

/// The error of a schedule that is named and not configured.
pub open spec fn schedule_not_found(name: Seq<char>) -> ErrorView {
    ErrorView::ConfigReferenceNotFound { schema: "[schedule]"@, name }
}

/// Which backup is due at `now`, from the moments of the last full and the
/// last incremental backup:
/// - a full backup where there is no full backup yet;
/// - else a full backup where the next occurrence of the full schedule
///   after the last full backup is not after `now`;
/// - else an incremental backup where the next occurrence of the
///   incremental schedule after the last backup of either kind is not
///   after `now`;
/// - else nothing.
/// A schedule that is named and not configured is an error, the full
/// schedule first.
pub open spec fn spec_due(
    cfg_backup: &BackupConfigBackup,
    config: &BackupConfig,
    now: DateTime,
    last_full: Option<DateTime>,
    last_incremental: Option<DateTime>,
) -> Result<Option<BackupType>, ErrorView> {
    match last_full {
        None => Ok(Some(BackupType::Full)),
        Some(last_full) => match config.spec_schedule(cfg_backup.full_schedule@) {
            None => Err(schedule_not_found(cfg_backup.full_schedule@)),
            Some(full) => if spec_is_due(spec_next_occurrence(full, last_full), now) {
                Ok(Some(BackupType::Full))
            } else {
                match config.spec_schedule(cfg_backup.incremental_schedule@) {
                    None => Err(schedule_not_found(cfg_backup.incremental_schedule@)),
                    Some(incremental) => if spec_is_due(
                        spec_next_occurrence(
                            incremental,
                            spec_baseline(last_full, last_incremental),
                        ),
                        now,
                    ) {
                        Ok(Some(BackupType::Incremental))
                    } else {
                        Ok(None)
                    },
                }
            },
        },
    }
}

/// Which backup is due at `now`.
pub fn due_backup_type(
    cfg_backup: &BackupConfigBackup,
    config: &BackupConfig,
    now: &DateTime,
    last_full: Option<DateTime>,
    last_incremental: Option<DateTime>,
) -> (r: Result<Option<BackupType>, Error>)
    ensures
        match r {
            Ok(due) => spec_due(cfg_backup, config, *now, last_full, last_incremental) == Ok::<
                Option<BackupType>,
                ErrorView,
            >(due),
            Err(e) => spec_due(cfg_backup, config, *now, last_full, last_incremental) == Err::<
                Option<BackupType>,
                ErrorView,
            >(e@),
        },
{
    let last_full = match last_full {
        None => {
            return Ok(Some(BackupType::Full));
        },
        Some(t) => t,
    };
    let full = config.schedule(cfg_backup.full_schedule.as_str())?;
    if is_due(next_occurrence(&full, &last_full), now) {
        return Ok(Some(BackupType::Full));
    }
    let incremental = config.schedule(cfg_backup.incremental_schedule.as_str())?;
    let from = baseline(last_full, last_incremental);
    if is_due(next_occurrence(&incremental, &from), now) {
        Ok(Some(BackupType::Incremental))
    } else {
        Ok(None)
    }
}

/// A full backup is not due while the next occurrence of its schedule after
/// the last full backup is still to come, and an incremental backup is not
/// due when a full backup is.
pub proof fn lemma_due_monotone(
    cfg_backup: &BackupConfigBackup,
    config: &BackupConfig,
    now: DateTime,
    last_full: DateTime,
    last_incremental: Option<DateTime>,
    full: ScheduleView,
)
    requires
        config.spec_schedule(cfg_backup.full_schedule@) == Some(full),
    ensures
        (spec_next_occurrence(full, last_full) matches Some(next) && now.spec_before(next))
            ==> spec_due(cfg_backup, config, now, Some(last_full), last_incremental) != Ok::<
            Option<BackupType>,
            ErrorView,
        >(Some(BackupType::Full)),
        spec_is_due(spec_next_occurrence(full, last_full), now) ==> spec_due(
            cfg_backup,
            config,
            now,
            Some(last_full),
            last_incremental,
        ) == Ok::<Option<BackupType>, ErrorView>(Some(BackupType::Full)),
        spec_due(cfg_backup, config, now, Some(last_full), last_incremental) == Ok::<
            Option<BackupType>,
            ErrorView,
        >(Some(BackupType::Incremental)) ==> !spec_is_due(
            spec_next_occurrence(full, last_full),
            now,
        ),
{
}

/// The moment of the run that `name` names.
fn run_moment(name: &Option<String>) -> (r: Option<DateTime>)
    ensures
        r == run_time(
            match *name {
                Some(n) => Some(n@),
                None => None,
            },
        ),
{
    match name {
        Some(name) => match BackupRunName::parse(name.as_str()) {
            Ok(run) => Some(run.datetime),
            Err(_) => None,
        },
        None => None,
    }
}

/// What a run of the scheduler does for one backup: the jobs of the backup
/// that is due, a full backup or an incremental one linked against the last
/// full backup, or `None` where nothing is due. `full_runs` and
/// `incremental_runs` are the names that stand in the directories of the
/// full and of the incremental backups of this host and user.
pub open spec fn spec_job_due(
    cfg_backup: &BackupConfigBackup,
    config: &BackupConfig,
    context: &RunContext,
    full_runs: Seq<Seq<char>>,
    incremental_runs: Seq<Seq<char>>,
) -> Result<Option<Seq<JobView>>, ErrorView> {
    let last_full = spec_last_backup(
        full_runs,
        context.hostname@,
        context.username@,
        cfg_backup.name@,
    );
    let last_incremental = spec_last_backup(
        incremental_runs,
        context.hostname@,
        context.username@,
        cfg_backup.name@,
    );
    match spec_due(cfg_backup, config, context.now, run_time(last_full), run_time(last_incremental)) {
        Err(e) => Err(e),
        Ok(None) => Ok(None),
        Ok(Some(backup_type)) => match spec_plan(backup_type, cfg_backup, config, context, last_full) {
            Err(e) => Err(e),
            Ok(jobs) => Ok(Some(jobs)),
        },
    }
}

/// Decides whether a backup of `cfg_backup` is due and plans it. `full_runs`
/// and `incremental_runs` are the names that stand in the directories of
/// the full and of the incremental backups of this host and user.
///
/// Gives the plan of a full backup, or of an incremental backup linked
/// against the last full backup, or `None` where nothing is due.
pub fn backup_job_due(
    cfg_backup: &BackupConfigBackup,
    config: &BackupConfig,
    context: &RunContext,
    full_runs: &Vec<String>,
    incremental_runs: &Vec<String>,
) -> (r: Result<Option<JobQueueEntry>, Error>)
    ensures
        match spec_job_due(
            cfg_backup,
            config,
            context,
            entry_texts(full_runs@),
            entry_texts(incremental_runs@),
        ) {
            Err(e) => r matches Err(found) && found@ == e,
            Ok(None) => r matches Ok(None),
            Ok(Some(jobs)) => r matches Ok(Some(entry)) && entry@ == EntryView::Series(
                ready_entries(jobs),
            ),
        },
{
    let last_full = find_last_backup(
        full_runs,
        context.hostname.as_str(),
        context.username.as_str(),
        cfg_backup.name.as_str(),
    );
    let last_incremental = find_last_backup(
        incremental_runs,
        context.hostname.as_str(),
        context.username.as_str(),
        cfg_backup.name.as_str(),
    );
    let due = due_backup_type(
        cfg_backup,
        config,
        &context.now,
        run_moment(&last_full),
        run_moment(&last_incremental),
    )?;
    match due {
        None => Ok(None),
        Some(backup_type) => {
            let baseline = match &last_full {
                Some(name) => Some(name.as_str()),
                None => None,
            };
            let entry = BackupJob::plan(backup_type, cfg_backup, config, context, baseline)?;
            Ok(Some(entry))
        },
    }
}

} // verus!
