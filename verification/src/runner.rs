//! Running a queue of jobs: the jobs run one after the other in the order
//! of the queue, series from their first entry to their last. A job that
//! succeeds is completed and its output kept; a job that fails has failed
//! and its error is kept, and where its failure ends the run every job
//! behind it is canceled.
//!
//! The actions of the jobs are carried out by the caller: a function from
//! an action to its outcome.

use crate::cmd::{action_views, Action, ActionView, Outcome};
use crate::error::{Error, ErrorView};
use crate::job::{
    entries_view, entry_view, lemma_entries_view, result_view, EntryView, Job, JobOutput,
    JobOutputView, JobQueueEntry, JobStatus, JobView,
};
use vstd::prelude::*;

verus! {

/// What is told where a directory of a run cannot be created.
pub open spec fn create_dir_message() -> Seq<char> {
    "Failed to create backup run directory"@
}

/// The error of an action that failed and wrote `message`.
pub open spec fn step_error(step: ActionView, message: Seq<char>) -> ErrorView {
    match step {
        ActionView::CreateDir { path } => ErrorView::FileIO {
            message: create_dir_message(),
            path,
            cause: Some(message),
        },
        ActionView::Run { command } => ErrorView::RsyncError { cause: message },
    }
}

/// Whether `exec` was asked to carry out `step` and reported success.
pub open spec fn step_succeeded<F: Fn(&Action) -> Outcome>(exec: &F, step: ActionView) -> bool {
    exists|action: Action, outcome: Outcome|
        action@ == step && #[trigger] call_ensures(exec, (&action,), outcome) && outcome.success
}

/// Whether `exec` was asked to carry out `step` and reported the failure
/// that `error` tells of.
pub open spec fn step_failed<F: Fn(&Action) -> Outcome>(
    exec: &F,
    step: ActionView,
    error: ErrorView,
) -> bool {
    exists|action: Action, outcome: Outcome|
        action@ == step && #[trigger] call_ensures(exec, (&action,), outcome) && !outcome.success
            && error == step_error(step, outcome.message@)
}

/// Whether every action of `job` was carried out by `exec` with success.
pub open spec fn job_succeeded<F: Fn(&Action) -> Outcome>(exec: &F, job: JobView) -> bool {
    job.steps() matches Ok(steps) && forall|i: int|
        0 <= i < steps.len() ==> step_succeeded(exec, #[trigger] steps[i])
}

/// Whether `exec` carried out the actions `steps` with success up to the
/// one at place `k`, which failed with `error`.
pub open spec fn failed_at<F: Fn(&Action) -> Outcome>(
    exec: &F,
    steps: Seq<ActionView>,
    k: int,
    error: ErrorView,
) -> bool {
    &&& 0 <= k < steps.len()
    &&& forall|j: int| 0 <= j < k ==> step_succeeded(exec, #[trigger] steps[j])
    &&& step_failed(exec, steps[k], error)
}

/// Whether `job` failed with `error`: it could not be carried out at all,
/// or `exec` carried out its actions with success up to one that failed.
pub open spec fn job_failed<F: Fn(&Action) -> Outcome>(
    exec: &F,
    job: JobView,
    error: ErrorView,
) -> bool {
    match job.steps() {
        Err(e) => error == e,
        Ok(steps) => exists|k: int| #[trigger] failed_at(exec, steps, k, error),
    }
}

impl Job {
    /// Runs the job: has `exec` carry out its actions in order and stops
    /// at the first that fails. Hands back the output of the job where all
    /// actions succeeded, else the error of the failure.
    pub fn run<F: Fn(&Action) -> Outcome>(&self, exec: &F) -> (r: Result<JobOutput, Error>)
        requires
            forall|action: &Action| call_requires(exec, (action,)),
        ensures
            match r {
                Ok(output) => output@ == self@.output() && job_succeeded(exec, self@),
                Err(e) => job_failed(exec, self@, e@),
            },
    {
        let actions = self.steps()?;
        let ghost steps = action_views(actions@);
        let mut i: usize = 0;
        while i < actions.len()
            invariant
                i <= actions.len(),
                steps == action_views(actions@),
                self@.steps() == Ok::<Seq<ActionView>, ErrorView>(steps),
                forall|action: &Action| call_requires(exec, (action,)),
                forall|j: int| 0 <= j < i ==> step_succeeded(exec, #[trigger] steps[j]),
            decreases actions.len() - i,
        {
            let outcome = exec(&actions[i]);
            assert(steps[i as int] == actions@[i as int]@);
            if !outcome.success {
                let error = match &actions[i] {
                    Action::CreateDir { path } => Error::file_io(
                        outcome.message.as_str(),
                        path.as_str(),
                        "Failed to create backup run directory",
                    ),
                    Action::Run { .. } => Error::rsync(outcome.message.as_str()),
                };
                proof {
                    let k = i as int;
                    assert(step_failed(exec, steps[k], error@));
                    assert(failed_at(exec, steps, k, error@));
                    assert(self@.steps() matches Ok(found) && found == steps);
                    assert(job_failed(exec, self@, error@));
                }
                return Err(error);
            }
            assert(step_succeeded(exec, steps[i as int]));
            i += 1;
        }
        Ok(self.output())
    }
}

// ---------------------------------------------------------------------------
// The jobs of a queue, in the order in which they run
// ---------------------------------------------------------------------------

/// The jobs of an entry with their statuses and results, in the order in
/// which they run.
pub open spec fn leaves(entry: EntryView) -> Seq<EntryView>
    decreases entry,
{
    match entry {
        EntryView::Job { .. } => seq![entry],
        EntryView::Series(entries) => leaves_of(entries),
    }
}

/// The jobs of a list of entries, in the order in which they run.
pub open spec fn leaves_of(entries: Seq<EntryView>) -> Seq<EntryView>
    decreases entries,
{
    if entries.len() == 0 {
        Seq::empty()
    } else {
        leaves_of(entries.drop_last()) + leaves(entries.last())
    }
}

/// The jobs of a list with one more entry.
pub proof fn lemma_leaves_of_push(entries: Seq<EntryView>, entry: EntryView)
    ensures
        leaves_of(entries.push(entry)) == leaves_of(entries) + leaves(entry),
{
    assert(entries.push(entry).drop_last() =~= entries);
}

/// The jobs of the first entry and then those of the others.
pub proof fn lemma_leaves_of_first(entries: Seq<EntryView>)
    requires
        entries.len() > 0,
    ensures
        leaves_of(entries) == leaves(entries[0]) + leaves_of(entries.drop_first()),
    decreases entries.len(),
{
    if entries.len() == 1 {
        assert(entries.drop_last().len() == 0);
        assert(entries.drop_first().len() == 0);
        assert(entries.last() == entries[0]);
        assert(leaves_of(entries.drop_last()) =~= Seq::<EntryView>::empty());
        assert(leaves_of(entries.drop_first()) =~= Seq::<EntryView>::empty());
        assert(leaves_of(entries) == leaves_of(entries.drop_last()) + leaves(entries.last()));
        assert(leaves_of(entries) =~= leaves(entries[0]));
    } else {
        let front = entries.drop_last();
        lemma_leaves_of_first(front);
        assert(front[0] == entries[0]);
        assert(front.drop_first() =~= entries.drop_first().drop_last());
        assert(entries.drop_first().last() == entries.last());
        assert(leaves_of(entries) =~= leaves(entries[0]) + leaves_of(entries.drop_first()));
    }
}

/// Whether a job has failed in a way that ends the run.
pub open spec fn leaf_stops(leaf: EntryView) -> bool {
    leaf matches EntryView::Job { job, status, .. } && status == JobStatus::Failed
        && job.break_on_error()
}

/// Whether one of the jobs has failed in a way that ends the run.
pub open spec fn stops_in(leaves: Seq<EntryView>) -> bool {
    exists|i: int| 0 <= i < leaves.len() && leaf_stops(#[trigger] leaves[i])
}

/// What running does to one job. Where the run has ended before, the job is
/// canceled and has no result. Else the job has run: it is completed, with
/// its output, where all its actions succeeded, or it has failed, with the
/// error of its failure.
pub open spec fn leaf_ran<F: Fn(&Action) -> Outcome>(
    exec: &F,
    before: EntryView,
    after: EntryView,
    stopped: bool,
) -> bool {
    &&& before matches EntryView::Job { job, .. }
    &&& after matches EntryView::Job { job: same, status, result }
    &&& same == job
    &&& if stopped {
        status == JobStatus::Canceled && result is None
    } else {
        ||| status == JobStatus::Completed && result == Some(
            Ok::<JobOutputView, ErrorView>(job.output()),
        ) && job_succeeded(exec, job)
        ||| status == JobStatus::Failed && (result matches Some(Err(e)) && job_failed(
            exec,
            job,
            e,
        ))
    }
}

/// What running does to the jobs of a queue: each job is run unless the
/// run has ended before it, by `stopped` or by a failure of a job in front
/// of it.
pub open spec fn queue_ran<F: Fn(&Action) -> Outcome>(
    exec: &F,
    before: Seq<EntryView>,
    after: Seq<EntryView>,
    stopped: bool,
) -> bool {
    &&& before.len() == after.len()
    &&& forall|i: int|
        0 <= i < before.len() ==> leaf_ran(
            exec,
            before[i],
            #[trigger] after[i],
            stopped || stops_in(after.take(i)),
        )
}

/// Running one part of a queue and then the next is running both.
pub proof fn lemma_queue_ran_concat<F: Fn(&Action) -> Outcome>(
    exec: &F,
    b1: Seq<EntryView>,
    a1: Seq<EntryView>,
    b2: Seq<EntryView>,
    a2: Seq<EntryView>,
    stopped: bool,
)
    requires
        queue_ran(exec, b1, a1, stopped),
        queue_ran(exec, b2, a2, stopped || stops_in(a1)),
    ensures
        queue_ran(exec, b1 + b2, a1 + a2, stopped),
        stops_in(a1 + a2) == (stops_in(a1) || stops_in(a2)),
{
    let b = b1 + b2;
    let a = a1 + a2;
    assert forall|i: int| 0 <= i < b.len() implies leaf_ran(
        exec,
        b[i],
        #[trigger] a[i],
        stopped || stops_in(a.take(i)),
    ) by {
        if i < b1.len() {
            assert(a.take(i) =~= a1.take(i));
            assert(a[i] == a1[i] && b[i] == b1[i]);
        } else {
            let k = i - b1.len();
            assert(a[i] == a2[k] && b[i] == b2[k]);
            assert(a.take(i) =~= a1 + a2.take(k));
            lemma_stops_in_concat(a1, a2.take(k));
        }
    }
    lemma_stops_in_concat(a1, a2);
}

/// A run ends in one of two parts where it ends in the first or in the
/// second.
pub proof fn lemma_stops_in_concat(a1: Seq<EntryView>, a2: Seq<EntryView>)
    ensures
        stops_in(a1 + a2) == (stops_in(a1) || stops_in(a2)),
{
    let a = a1 + a2;
    if stops_in(a1) {
        let i = choose|i: int| 0 <= i < a1.len() && leaf_stops(#[trigger] a1[i]);
        assert(a[i] == a1[i]);
    }
    if stops_in(a2) {
        let i = choose|i: int| 0 <= i < a2.len() && leaf_stops(#[trigger] a2[i]);
        assert(a[a1.len() + i] == a2[i]);
    }
    if stops_in(a) {
        let i = choose|i: int| 0 <= i < a.len() && leaf_stops(#[trigger] a[i]);
        if i < a1.len() {
            assert(a1[i] == a[i]);
        } else {
            assert(a2[i - a1.len()] == a[i]);
        }
    }
}

/// Whether `after` holds the jobs of `before`, job by job and series by
/// series, whatever their statuses and results are.
pub open spec fn same_jobs(before: EntryView, after: EntryView) -> bool
    decreases before,
{
    match before {
        EntryView::Job { job, .. } => after matches EntryView::Job { job: same, .. } && same == job,
        EntryView::Series(entries) => after matches EntryView::Series(others) && others.len()
            == entries.len() && forall|i: int|
            0 <= i < entries.len() ==> same_jobs(entries[i], #[trigger] others[i]),
    }
}

/// Runs the jobs of one entry, in order. `stopped` says whether the run has
/// ended before this entry. Hands back the entry with the new statuses and
/// results of its jobs, and whether the run has ended.
pub fn run_job_entry<F: Fn(&Action) -> Outcome>(entry: JobQueueEntry, exec: &F, stopped: bool) -> (r:
    (JobQueueEntry, bool))
    requires
        forall|action: &Action| call_requires(exec, (action,)),
    ensures
        same_jobs(entry@, r.0@),
        queue_ran(exec, leaves(entry@), leaves(r.0@), stopped),
        r.1 == (stopped || stops_in(leaves(r.0@))),
    decreases entry,
{
    match entry {
        JobQueueEntry::Job { job, status, result } => {
            let ghost before = entry@;
            let (after, ended) = if stopped {
                (JobQueueEntry::Job { job, status: JobStatus::Canceled, result: None }, true)
            } else {
                match job.run(exec) {
                    Ok(output) => (
                        JobQueueEntry::Job {
                            job,
                            status: JobStatus::Completed,
                            result: Some(Ok(output)),
                        },
                        false,
                    ),
                    Err(error) => {
                        let ends = job.break_on_error();
                        (
                            JobQueueEntry::Job {
                                job,
                                status: JobStatus::Failed,
                                result: Some(Err(error)),
                            },
                            ends,
                        )
                    },
                }
            };
            proof {
                let a = leaves(after@);
                assert(a =~= seq![after@]);
                assert(leaves(before) =~= seq![before]);
                assert(a.take(0) =~= Seq::<EntryView>::empty());
                assert(!stops_in(a.take(0)));
                assert(leaf_ran(exec, before, after@, stopped));
                if stops_in(a) {
                    let i = choose|i: int| 0 <= i < a.len() && leaf_stops(#[trigger] a[i]);
                }
                if leaf_stops(after@) {
                    assert(leaf_stops(a[0]));
                }
            }
            (after, ended)
        },
        JobQueueEntry::Series(children) => {
            let (after, ended) = run_entries(children, exec, stopped, Ghost(entry));
            proof {
                lemma_entries_view(children@);
                lemma_entries_view(after@);
            }
            (JobQueueEntry::Series(after), ended)
        },
    }
}

/// Runs the jobs of a list of entries, in order.
fn run_entries<F: Fn(&Action) -> Outcome>(
    entries: Vec<JobQueueEntry>,
    exec: &F,
    stopped: bool,
    Ghost(parent): Ghost<JobQueueEntry>,
) -> (r: (Vec<JobQueueEntry>, bool))
    requires
        forall|action: &Action| call_requires(exec, (action,)),
        forall|i: int| 0 <= i < entries@.len() ==> decreases_to!(parent => entries@[i]),
    ensures
        r.0@.len() == entries@.len(),
        forall|i: int|
            0 <= i < entries@.len() ==> same_jobs(
                entries_view(entries@)[i],
                #[trigger] entries_view(r.0@)[i],
            ),
        queue_ran(
            exec,
            leaves_of(entries_view(entries@)),
            leaves_of(entries_view(r.0@)),
            stopped,
        ),
        r.1 == (stopped || stops_in(leaves_of(entries_view(r.0@)))),
    decreases parent, 0nat,
{
    let ghost all = leaves_of(entries_view(entries@));
    let ghost first = entries_view(entries@);
    let mut rest = entries;
    let mut done: Vec<JobQueueEntry> = Vec::new();
    let mut ended = stopped;
    let ghost mut ran: Seq<EntryView> = Seq::empty();
    proof {
        assert(leaves_of(entries_view(done@)) =~= Seq::<EntryView>::empty());
        assert(ran + leaves_of(entries_view(rest@)) =~= all);
        lemma_entries_view(rest@);
        lemma_entries_view(done@);
    }
    while rest.len() > 0
        invariant
            forall|action: &Action| call_requires(exec, (action,)),
            forall|i: int| 0 <= i < rest@.len() ==> decreases_to!(parent => rest@[i]),
            first.len() == done@.len() + rest@.len(),
            entries_view(done@).len() == done@.len(),
            forall|i: int|
                0 <= i < rest@.len() ==> entry_view(#[trigger] rest@[i]) == first[done@.len() + i],
            forall|i: int|
                0 <= i < done@.len() ==> same_jobs(first[i], #[trigger] entries_view(done@)[i]),
            all == ran + leaves_of(entries_view(rest@)),
            queue_ran(exec, ran, leaves_of(entries_view(done@)), stopped),
            ended == (stopped || stops_in(leaves_of(entries_view(done@)))),
        decreases rest.len(),
    {
        let ghost before_rest = rest@;
        let ghost before_done = done@;
        let child = rest.remove(0);
        proof {
            lemma_entries_view(before_rest);
            lemma_entries_view(rest@);
            assert(rest@ =~= before_rest.drop_first());
            assert(entries_view(rest@) =~= entries_view(before_rest).drop_first());
            lemma_leaves_of_first(entries_view(before_rest));
            assert(entries_view(before_rest)[0] == child@);
        }
        let (after, now) = run_job_entry(child, exec, ended);
        done.push(after);
        proof {
            lemma_entries_view(before_done);
            lemma_entries_view(done@);
            assert(entries_view(done@) =~= entries_view(before_done).push(after@));
            assert(entry_view(before_rest[0]) == first[before_done.len() as int]);
            assert forall|i: int| 0 <= i < rest@.len() implies entry_view(#[trigger] rest@[i])
                == first[done@.len() + i] by {
                assert(rest@[i] == before_rest[i + 1]);
            }
            assert forall|i: int| 0 <= i < done@.len() implies same_jobs(
                first[i],
                #[trigger] entries_view(done@)[i],
            ) by {
                if i < before_done.len() {
                    assert(entries_view(done@)[i] == entries_view(before_done)[i]);
                }
            }
            lemma_leaves_of_push(entries_view(before_done), after@);
            lemma_queue_ran_concat(
                exec,
                ran,
                leaves_of(entries_view(before_done)),
                leaves(child@),
                leaves(after@),
                stopped,
            );
            assert(ran + leaves(child@) + leaves_of(entries_view(rest@)) =~= ran + (leaves(child@)
                + leaves_of(entries_view(rest@))));
            ran = ran + leaves(child@);
        }
        ended = now;
    }
    proof {
        assert(leaves_of(entries_view(rest@)) =~= Seq::<EntryView>::empty());
        assert(ran =~= all);
    }
    (done, ended)
}

// ---------------------------------------------------------------------------
// The results of a run
// ---------------------------------------------------------------------------

/// The outputs of the jobs that were completed, in the order of the jobs.
pub open spec fn outputs_of(leaves: Seq<EntryView>) -> Seq<JobOutputView>
    decreases leaves.len(),
{
    if leaves.len() == 0 {
        Seq::empty()
    } else {
        let front = outputs_of(leaves.drop_last());
        match leaves.last() {
            EntryView::Job { result: Some(Ok(output)), .. } => front.push(output),
            _ => front,
        }
    }
}

/// The error of the first job that failed, if one did.
pub open spec fn first_error(leaves: Seq<EntryView>) -> Option<ErrorView>
    decreases leaves.len(),
{
    if leaves.len() == 0 {
        None
    } else {
        match first_error(leaves.drop_last()) {
            Some(e) => Some(e),
            None => match leaves.last() {
                EntryView::Job { result: Some(Err(e)), .. } => Some(e),
                _ => None,
            },
        }
    }
}

/// The views of a list of outputs.
pub open spec fn output_views(outputs: Seq<JobOutput>) -> Seq<JobOutputView> {
    outputs.map_values(|o: JobOutput| o@)
}

/// The outputs and the first error of two parts of a queue.
pub proof fn lemma_results_concat(a: Seq<EntryView>, b: Seq<EntryView>)
    ensures
        outputs_of(a + b) == outputs_of(a) + outputs_of(b),
        first_error(a + b) == (match first_error(a) {
            Some(e) => Some(e),
            None => first_error(b),
        }),
    decreases b.len(),
{
    if b.len() == 0 {
        assert(a + b =~= a);
        assert(outputs_of(a) + outputs_of(b) =~= outputs_of(a));
    } else {
        lemma_results_concat(a, b.drop_last());
        assert((a + b).drop_last() =~= a + b.drop_last());
        assert((a + b).last() == b.last());
        assert(outputs_of(a + b) =~= outputs_of(a) + outputs_of(b));
    }
}

/// Gathers the outputs of the jobs of one entry, or finds the first error.
fn collect_entry(entry: JobQueueEntry, outputs: &mut Vec<JobOutput>) -> (r: Result<(), Error>)
    ensures
        match first_error(leaves(entry@)) {
            Some(e) => r matches Err(found) && found@ == e,
            None => r is Ok && output_views(final(outputs)@) == output_views(old(outputs)@)
                + outputs_of(leaves(entry@)),
        },
    decreases entry,
{
    let ghost before = output_views(outputs@);
    match entry {
        JobQueueEntry::Job { job, status, result } => {
            proof {
                let l = leaves(entry@);
                assert(l =~= seq![entry@]);
                assert(l.len() == 1);
                assert(l.drop_last().len() == 0);
                assert(l.last() == entry@);
                assert(outputs_of(l.drop_last()) =~= Seq::<JobOutputView>::empty());
                assert(first_error(l.drop_last()) is None);
                assert(entry@ == EntryView::Job { job: job@, status, result: result_view(result) });
            }
            match result {
                Some(Ok(output)) => {
                    outputs.push(output);
                    assert(output_views(outputs@) =~= before + outputs_of(leaves(entry@)));
                    Ok(())
                },
                Some(Err(e)) => Err(e),
                None => {
                    assert(output_views(outputs@) =~= before + outputs_of(leaves(entry@)));
                    Ok(())
                },
            }
        },
        JobQueueEntry::Series(children) => collect_entries(children, outputs, Ghost(entry)),
    }
}

/// Gathers the outputs of the jobs of a list of entries, or finds the first
/// error.
fn collect_entries(
    entries: Vec<JobQueueEntry>,
    outputs: &mut Vec<JobOutput>,
    Ghost(parent): Ghost<JobQueueEntry>,
) -> (r: Result<(), Error>)
    requires
        forall|i: int| 0 <= i < entries@.len() ==> decreases_to!(parent => entries@[i]),
    ensures
        match first_error(leaves_of(entries_view(entries@))) {
            Some(e) => r matches Err(found) && found@ == e,
            None => r is Ok && output_views(final(outputs)@) == output_views(old(outputs)@)
                + outputs_of(leaves_of(entries_view(entries@))),
        },
    decreases parent, 0nat,
{
    let ghost all = leaves_of(entries_view(entries@));
    let ghost before = output_views(outputs@);
    let mut rest = entries;
    let ghost mut seen: Seq<EntryView> = Seq::empty();
    proof {
        assert(seen + leaves_of(entries_view(rest@)) =~= all);
        assert(before + outputs_of(seen) =~= before);
    }
    while rest.len() > 0
        invariant
            forall|i: int| 0 <= i < rest@.len() ==> decreases_to!(parent => rest@[i]),
            all == seen + leaves_of(entries_view(rest@)),
            all == leaves_of(entries_view(entries@)),
            first_error(seen) is None,
            output_views(outputs@) == before + outputs_of(seen),
        decreases rest.len(),
    {
        let ghost before_rest = rest@;
        let child = rest.remove(0);
        proof {
            lemma_entries_view(before_rest);
            lemma_entries_view(rest@);
            assert(rest@ =~= before_rest.drop_first());
            assert(entries_view(rest@) =~= entries_view(before_rest).drop_first());
            lemma_leaves_of_first(entries_view(before_rest));
            assert(entries_view(before_rest)[0] == child@);
            lemma_results_concat(seen, leaves(child@));
            lemma_results_concat(seen + leaves(child@), leaves_of(entries_view(rest@)));
            assert(seen + leaves(child@) + leaves_of(entries_view(rest@)) =~= all);
        }
        match collect_entry(child, outputs) {
            Ok(_) => {},
            Err(e) => {
                proof {
                    assert(first_error(leaves(child@)) == Some(e@));
                    assert(first_error(seen + leaves(child@)) == Some(e@));
                    assert(first_error(all) == Some(e@));
                }
                return Err(e);
            },
        }
        proof {
            assert(before + outputs_of(seen) + outputs_of(leaves(child@)) =~= before + (
            outputs_of(seen) + outputs_of(leaves(child@))));
            seen = seen + leaves(child@);
        }
    }
    proof {
        assert(leaves_of(entries_view(rest@)) =~= Seq::<EntryView>::empty());
        assert(seen =~= all);
    }
    Ok(())
}

/// Runs the jobs of a queue, in order, and hands back their outputs in
/// that order, or the error of the first job that failed. `exec` carries
/// out the actions of the jobs.
///
/// The jobs are run as `queue_ran` says: one after the other, none after a
/// failure that ends the run.
pub fn run_jobs<F: Fn(&Action) -> Outcome>(queue: Vec<JobQueueEntry>, exec: &F) -> (r: Result<
    Vec<JobOutput>,
    Error,
>)
    requires
        forall|action: &Action| call_requires(exec, (action,)),
    ensures
        exists|after: Seq<EntryView>|
            #![trigger queue_ran(exec, leaves_of(entries_view(queue@)), after, false)]
            queue_ran(exec, leaves_of(entries_view(queue@)), after, false) && match first_error(
                after,
            ) {
                Some(e) => r matches Err(found) && found@ == e,
                None => r matches Ok(outputs) && output_views(outputs@) == outputs_of(after),
            },
{
    let entry = JobQueueEntry::Series(queue);
    let (after, _) = run_job_entry(entry, exec, false);
    let ghost done = leaves(after@);
    let mut outputs: Vec<JobOutput> = Vec::new();
    proof {
        assert(output_views(outputs@) =~= Seq::<JobOutputView>::empty());
        assert(leaves(entry@) == leaves_of(entries_view(queue@)));
    }
    match collect_entry(after, &mut outputs) {
        Ok(_) => {
            assert(output_views(outputs@) =~= outputs_of(done));
            Ok(outputs)
        },
        Err(e) => Err(e),
    }
}

/// Whether a job was run and completed, with its output.
pub open spec fn leaf_completed<F: Fn(&Action) -> Outcome>(
    exec: &F,
    before: EntryView,
    after: EntryView,
) -> bool {
    &&& before matches EntryView::Job { job, .. }
    &&& after == (EntryView::Job {
        job,
        status: JobStatus::Completed,
        result: Some(Ok::<JobOutputView, ErrorView>(job.output())),
    })
    &&& job_succeeded(exec, job)
}

/// Whether a job was run and failed with `error`.
pub open spec fn leaf_failed<F: Fn(&Action) -> Outcome>(
    exec: &F,
    before: EntryView,
    after: EntryView,
    error: ErrorView,
) -> bool {
    &&& before matches EntryView::Job { job, .. }
    &&& after == (EntryView::Job {
        job,
        status: JobStatus::Failed,
        result: Some(Err::<JobOutputView, ErrorView>(error)),
    })
    &&& job_failed(exec, job, error)
}

/// Whether a job was canceled.
pub open spec fn leaf_canceled(before: EntryView, after: EntryView) -> bool {
    &&& before matches EntryView::Job { job, .. }
    &&& after == (EntryView::Job { job, status: JobStatus::Canceled, result: None })
}

/// Whether the run went well up to the job at place `k`, which failed with
/// `error`, and every job behind it was canceled.
pub open spec fn failed_run_at<F: Fn(&Action) -> Outcome>(
    exec: &F,
    before: Seq<EntryView>,
    after: Seq<EntryView>,
    k: int,
    error: ErrorView,
) -> bool {
    &&& 0 <= k < before.len() == after.len()
    &&& forall|i: int| 0 <= i < k ==> leaf_completed(exec, before[i], #[trigger] after[i])
    &&& leaf_failed(exec, before[k], after[k], error)
    &&& forall|i: int| k < i < before.len() ==> leaf_canceled(before[i], #[trigger] after[i])
}

/// A run without an error has completed every job, in order, with the
/// output of the job.
pub proof fn lemma_run_without_error<F: Fn(&Action) -> Outcome>(
    exec: &F,
    before: Seq<EntryView>,
    after: Seq<EntryView>,
)
    requires
        queue_ran(exec, before, after, false),
        first_error(after) is None,
    ensures
        outputs_of(after).len() == before.len(),
        !stops_in(after),
        forall|i: int| 0 <= i < before.len() ==> leaf_completed(exec, before[i], #[trigger] after[i]),
        forall|i: int|
            0 <= i < before.len() ==> (#[trigger] before[i] matches EntryView::Job { job, .. }
                && outputs_of(after)[i] == job.output() && job_succeeded(exec, job)),
    decreases before.len(),
{
    if before.len() > 0 {
        let n = before.len() - 1;
        let b1 = before.drop_last();
        let a1 = after.drop_last();
        lemma_queue_ran_front(exec, before, after);
        lemma_run_without_error(exec, b1, a1);
        assert(after.take(n) =~= a1);
        assert(leaf_ran(exec, before[n], after[n], false || stops_in(after.take(n))));
        assert(after.last() == after[n]);
        assert(!stops_in(after)) by {
            if stops_in(after) {
                let i = choose|i: int| 0 <= i < after.len() && leaf_stops(#[trigger] after[i]);
                if i < n {
                    assert(a1[i] == after[i]);
                }
            }
        }
        assert forall|i: int| 0 <= i < before.len() implies leaf_completed(
            exec,
            before[i],
            #[trigger] after[i],
        ) by {
            if i < n {
                assert(b1[i] == before[i] && a1[i] == after[i]);
            }
        }
        assert forall|i: int| 0 <= i < before.len() implies (#[trigger] before[i] matches EntryView::Job {
            job,
            ..
        } && outputs_of(after)[i] == job.output() && job_succeeded(exec, job)) by {
            if i < n {
                assert(b1[i] == before[i]);
            }
        }
    }
}

/// The jobs but the last of a run have run as a run of their own.
proof fn lemma_queue_ran_front<F: Fn(&Action) -> Outcome>(
    exec: &F,
    before: Seq<EntryView>,
    after: Seq<EntryView>,
)
    requires
        queue_ran(exec, before, after, false),
        before.len() > 0,
    ensures
        queue_ran(exec, before.drop_last(), after.drop_last(), false),
{
    let b1 = before.drop_last();
    let a1 = after.drop_last();
    assert forall|i: int| 0 <= i < b1.len() implies leaf_ran(
        exec,
        b1[i],
        #[trigger] a1[i],
        false || stops_in(a1.take(i)),
    ) by {
        assert(a1.take(i) =~= after.take(i));
        assert(a1[i] == after[i]);
    }
}

/// A run with an error went well up to the first job that failed, has the
/// error of that job, and has canceled every job behind it.
pub proof fn lemma_run_with_error<F: Fn(&Action) -> Outcome>(
    exec: &F,
    before: Seq<EntryView>,
    after: Seq<EntryView>,
    error: ErrorView,
)
    requires
        queue_ran(exec, before, after, false),
        first_error(after) == Some(error),
    ensures
        exists|k: int| #[trigger] failed_run_at(exec, before, after, k, error),
    decreases before.len(),
{
    let n = before.len() - 1;
    let b1 = before.drop_last();
    let a1 = after.drop_last();
    assert(before.len() > 0);
    lemma_queue_ran_front(exec, before, after);
    assert(after.take(n) =~= a1);
    assert(leaf_ran(exec, before[n], after[n], false || stops_in(after.take(n))));
    assert(after.last() == after[n]);
    if first_error(a1) is Some {
        lemma_run_with_error(exec, b1, a1, error);
        let k = choose|k: int| #[trigger] failed_run_at(exec, b1, a1, k, error);
        assert(leaf_stops(a1[k]));
        assert(stops_in(a1));
        assert(failed_run_at(exec, before, after, k, error)) by {
            assert forall|i: int| 0 <= i < k implies leaf_completed(
                exec,
                before[i],
                #[trigger] after[i],
            ) by {
                assert(b1[i] == before[i] && a1[i] == after[i]);
            }
            assert(b1[k] == before[k] && a1[k] == after[k]);
            assert forall|i: int| k < i < before.len() implies leaf_canceled(
                before[i],
                #[trigger] after[i],
            ) by {
                if i < n {
                    assert(b1[i] == before[i] && a1[i] == after[i]);
                }
            }
        }
    } else {
        lemma_run_without_error(exec, b1, a1);
        assert(failed_run_at(exec, before, after, n, error)) by {
            assert forall|i: int| 0 <= i < n implies leaf_completed(
                exec,
                before[i],
                #[trigger] after[i],
            ) by {
                assert(b1[i] == before[i] && a1[i] == after[i]);
            }
        }
    }
}

} // verus!
