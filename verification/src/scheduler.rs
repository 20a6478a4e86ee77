//! The batch scheduler's bookkeeping: which jobs may start, which have
//! reported, when the batch is over, and the estimate of the time left.
//!
//! Workers run in parallel and share one scheduler behind a lock. A worker
//! claims a job before it starts it and reports the job when it is done;
//! an interrupt cancels the batch. Cancelling stops jobs from starting; it
//! never touches a job that runs.

use vstd::prelude::*;
use crate::progress::{decimal, format_time, time_text};

verus! {

/// Where a job of the batch stands.
#[derive(Clone, Copy, Debug, PartialEq, Eq)]
pub enum JobStatus {
    /// Not started yet.
    Pending,
    /// Started and not yet done.
    Running,
    /// Done: its one message was produced.
    Reported,
    /// Never started, because the batch was cancelled first.
    Dropped,
}

/// How a job ended.
#[derive(Clone, Debug, PartialEq, Eq)]
pub enum Outcome {
    /// Converted, in this many milliseconds.
    Success(u64),
    /// Not a RAW image: left alone.
    Skipped,
    /// Failed, for this reason.
    Error(String),
}

/// The one message that a job produces when it is done.
#[derive(Clone, Debug, PartialEq, Eq)]
pub struct ProgressMessage {
    /// Index of the job in the batch.
    pub job: usize,
    pub outcome: Outcome,
    /// The estimate of the time left in milliseconds, this job counted as
    /// done, for a job that succeeded.
    pub remaining_ms: Option<u64>,
}

impl ProgressMessage {
    /// The time left as the message shows it: the estimate in whole
    /// seconds, and no seconds where there is no estimate.
    pub open spec fn time_left_text(self) -> Seq<char> {
        match self.remaining_ms {
            Some(ms) => time_text((ms / 1000) as nat),
            None => time_text(0),
        }
    }

    /// Writes the time left as the message shows it.
    pub fn time_left(&self) -> (s: String)
        ensures
            s@ == self.time_left_text(),
    {
        match self.remaining_ms {
            Some(ms) => format_time(ms / 1000),
            None => format_time(0),
        }
    }
}

/// The state of a batch.
pub struct BatchScheduler {
    pub jobs: Vec<JobStatus>,
    pub cancelled: bool,
    /// Number of jobs that have reported success.
    pub succeeded: usize,
    /// Number of jobs that have reported.
    pub reported: usize,
}

/// The state of a batch as plain values.
pub struct Batch {
    pub jobs: Seq<JobStatus>,
    pub cancelled: bool,
    pub succeeded: nat,
    pub reported: nat,
}

/// Number of jobs with the given status.
pub open spec fn count(jobs: Seq<JobStatus>, status: JobStatus) -> nat
    decreases jobs.len(),
{
    if jobs.len() == 0 {
        0
    } else {
        count(jobs.drop_last(), status) + if jobs.last() == status {
            1nat
        } else {
            0nat
        }
    }
}

/// The estimate of the time left: the time since the start of the batch
/// divided by the number of jobs that succeeded, times the number of jobs
/// that have not, in whole milliseconds and at most `u64::MAX`.
pub open spec fn estimate(since_start_ms: u64, succeeded: nat, total: nat) -> u64
    recommends
        0 < succeeded <= total,
{
    let exact = since_start_ms * (total - succeeded) / (succeeded as int);
    if exact > u64::MAX {
        u64::MAX
    } else {
        exact as u64
    }
}

impl Batch {
    /// A batch of `total` jobs of which none has started.
    pub open spec fn fresh(total: nat) -> Batch {
        Batch {
            jobs: Seq::new(total, |i: int| JobStatus::Pending),
            cancelled: false,
            succeeded: 0,
            reported: 0,
        }
    }

    /// The counters agree with the jobs.
    pub open spec fn wf(self) -> bool {
        &&& self.reported == count(self.jobs, JobStatus::Reported)
        &&& self.succeeded <= self.reported
    }

    /// Whether a worker that asks for job `job` may start it.
    pub open spec fn may_start(self, job: int) -> bool {
        0 <= job < self.jobs.len() && self.jobs[job] == JobStatus::Pending && !self.cancelled
    }

    /// The batch after an interrupt.
    pub open spec fn cancel(self) -> Batch {
        Batch { cancelled: true, ..self }
    }

    /// The batch after a worker asked for job `job`: a pending job starts,
    /// or is dropped if the batch is cancelled; any other job stays as it is.
    pub open spec fn claim(self, job: int) -> Batch {
        if 0 <= job < self.jobs.len() && self.jobs[job] == JobStatus::Pending {
            Batch {
                jobs: self.jobs.update(
                    job,
                    if self.cancelled {
                        JobStatus::Dropped
                    } else {
                        JobStatus::Running
                    },
                ),
                ..self
            }
        } else {
            self
        }
    }

    /// Whether job `job` runs, so that a report of it counts.
    pub open spec fn runs(self, job: int) -> bool {
        0 <= job < self.jobs.len() && self.jobs[job] == JobStatus::Running
    }

    /// The batch after job `job` reported `outcome`: a running job becomes
    /// reported; a report of any other job changes nothing.
    pub open spec fn report(self, job: int, outcome: Outcome) -> Batch {
        if self.runs(job) {
            Batch {
                jobs: self.jobs.update(job, JobStatus::Reported),
                succeeded: if outcome is Success {
                    self.succeeded + 1
                } else {
                    self.succeeded
                },
                reported: self.reported + 1,
                ..self
            }
        } else {
            self
        }
    }

    /// The message that the report of job `job` produces, if the job runs.
    pub open spec fn message(self, job: int, outcome: Outcome, since_start_ms: u64) -> Option<
        ProgressMessage,
    > {
        if self.runs(job) {
            Some(
                ProgressMessage {
                    job: job as usize,
                    outcome,
                    remaining_ms: if outcome is Success {
                        Some(estimate(since_start_ms, self.reported + 1, self.jobs.len()))
                    } else {
                        None
                    },
                },
            )
        } else {
            None
        }
    }

    /// The batch is over: no job is pending or running.
    pub open spec fn terminated(self) -> bool {
        forall|i: int|
            0 <= i < self.jobs.len() ==> #[trigger] self.jobs[i] == JobStatus::Reported
                || self.jobs[i] == JobStatus::Dropped
    }
}

impl View for BatchScheduler {
    type V = Batch;

    open spec fn view(&self) -> Batch {
        Batch {
            jobs: self.jobs@,
            cancelled: self.cancelled,
            succeeded: self.succeeded as nat,
            reported: self.reported as nat,
        }
    }
}

/// Changing the status of one job moves one job from the count of its old
/// status to the count of its new one.
pub proof fn lemma_count_update(jobs: Seq<JobStatus>, at: int, to: JobStatus, status: JobStatus)
    requires
        0 <= at < jobs.len(),
    ensures
        count(jobs.update(at, to), status) == count(jobs, status) - (if jobs[at] == status {
            1int
        } else {
            0int
        }) + (if to == status {
            1int
        } else {
            0int
        }),
    decreases jobs.len(),
{
    let after = jobs.update(at, to);
    if at == jobs.len() - 1 {
        assert(after.drop_last() =~= jobs.drop_last());
    } else {
        assert(after.drop_last() =~= jobs.drop_last().update(at, to));
        lemma_count_update(jobs.drop_last(), at, to, status);
    }
}

/// No more jobs have a status than there are jobs, and a job with the
/// status is counted.
pub proof fn lemma_count_bounds(jobs: Seq<JobStatus>, status: JobStatus)
    ensures
        count(jobs, status) <= jobs.len(),
        forall|i: int| 0 <= i < jobs.len() && jobs[i] == status ==> count(jobs, status) >= 1,
        count(jobs, status) == 0 ==> forall|i: int| 0 <= i < jobs.len() ==> jobs[i] != status,
    decreases jobs.len(),
{
    if jobs.len() > 0 {
        lemma_count_bounds(jobs.drop_last(), status);
        assert forall|i: int| 0 <= i < jobs.len() && jobs[i] == status implies count(jobs, status)
            >= 1 by {
            if i < jobs.len() - 1 {
                assert(jobs.drop_last()[i] == jobs[i]);
            }
        }
        assert forall|i: int| 0 <= i < jobs.len() && count(jobs, status) == 0 implies jobs[i]
            != status by {
            if i < jobs.len() - 1 {
                assert(jobs.drop_last()[i] == jobs[i]);
            }
        }
    }
}

/// With every job done no time is left, and while no time has passed none
/// is estimated.
pub proof fn lemma_nothing_left_at_the_end(since_start_ms: u64, done: nat, total: nat)
    requires
        0 < done <= total,
    ensures
        estimate(since_start_ms, total, total) == 0,
        estimate(0, done, total) == 0,
{
    assert(since_start_ms * 0 / (total as int) == 0) by (nonlinear_arith)
        requires
            total > 0,
    ;
    assert(0 * (total - done) / (done as int) == 0) by (nonlinear_arith)
        requires
            done > 0,
    ;
}

/// The message of the job that is the last to report, if the job
/// succeeded, shows that no time is left.
pub proof fn lemma_last_message_leaves_no_time(
    batch: Batch,
    job: int,
    outcome: Outcome,
    since_start_ms: u64,
)
    requires
        batch.wf(),
        batch.runs(job),
        batch.reported + 1 == batch.jobs.len(),
        outcome is Success,
    ensures
        batch.message(job, outcome, since_start_ms) matches Some(m) && m.remaining_ms == Some(0u64)
            && m.time_left_text() == seq!['0', 's'],
{
    lemma_nothing_left_at_the_end(since_start_ms, batch.jobs.len(), batch.jobs.len());
    reveal_with_fuel(decimal, 2);
    assert(decimal(0) =~= seq!['0']);
    assert(time_text(0) =~= seq!['0', 's']);
}

/// Computes the estimate of the time left.
pub fn estimate_remaining(since_start_ms: u64, done: usize, total: usize) -> (r: u64)
    requires
        0 < done <= total,
    ensures
        r == estimate(since_start_ms, done as nat, total as nat),
{
    let left: u128 = (total - done) as u128;
    assert(since_start_ms * left <= 0xffff_ffff_ffff_ffff * 0xffff_ffff_ffff_ffff)
        by (nonlinear_arith)
        requires
            0 <= since_start_ms <= 0xffff_ffff_ffff_ffff,
            0 <= left <= 0xffff_ffff_ffff_ffff,
    ;
    let exact: u128 = (since_start_ms as u128) * left / (done as u128);
    if exact > u64::MAX as u128 {
        u64::MAX
    } else {
        exact as u64
    }
}

impl BatchScheduler {
    /// The counters agree with the jobs.
    pub open spec fn wf(&self) -> bool {
        self@.wf()
    }

    /// A batch of `total` jobs of which none has started.
    pub fn new(total: usize) -> (s: BatchScheduler)
        ensures
            s@ == Batch::fresh(total as nat),
            s.wf(),
    {
        let mut jobs: Vec<JobStatus> = Vec::new();
        let mut i: usize = 0;
        while i < total
            invariant
                0 <= i <= total,
                jobs@.len() == i,
                forall|j: int| 0 <= j < i ==> jobs@[j] == JobStatus::Pending,
                count(jobs@, JobStatus::Reported) == 0,
            decreases total - i,
        {
            let ghost before = jobs@;
            jobs.push(JobStatus::Pending);
            assert(jobs@.drop_last() =~= before);
            i += 1;
        }
        assert(jobs@ =~= Seq::new(total as nat, |i: int| JobStatus::Pending));
        BatchScheduler { jobs, cancelled: false, succeeded: 0, reported: 0 }
    }

    /// Number of jobs in the batch.
    pub fn total(&self) -> (n: usize)
        ensures
            n == self@.jobs.len(),
    {
        self.jobs.len()
    }

    /// Records an interrupt: from now on no job starts. Jobs that run are
    /// not touched.
    pub fn cancel(&mut self)
        requires
            old(self).wf(),
        ensures
            final(self)@ == old(self)@.cancel(),
            final(self).wf(),
    {
        self.cancelled = true;
    }

    /// Whether the batch was cancelled.
    pub fn is_cancelled(&self) -> (b: bool)
        ensures
            b == self@.cancelled,
    {
        self.cancelled
    }

    /// Asks to start job `job`. Returns whether the worker may run it: only
    /// a pending job of a batch that is not cancelled starts. A pending job
    /// of a cancelled batch is dropped.
    pub fn claim(&mut self, job: usize) -> (start: bool)
        requires
            old(self).wf(),
        ensures
            start == old(self)@.may_start(job as int),
            final(self)@ == old(self)@.claim(job as int),
            final(self).wf(),
    {
        if job >= self.jobs.len() {
            return false;
        }
        match self.jobs[job] {
            JobStatus::Pending => {
                let status = if self.cancelled {
                    JobStatus::Dropped
                } else {
                    JobStatus::Running
                };
                proof {
                    lemma_count_update(self.jobs@, job as int, status, JobStatus::Reported);
                }
                self.jobs.set(job, status);
                !self.cancelled
            },
            _ => false,
        }
    }

    /// Reports that job `job` is done, `since_start_ms` milliseconds after
    /// the start of the batch. Returns the job's message: each job that was
    /// started gets exactly one, and a report of a job that does not run
    /// gets none and changes nothing.
    pub fn report(&mut self, job: usize, outcome: Outcome, since_start_ms: u64) -> (message: Option<
        ProgressMessage,
    >)
        requires
            old(self).wf(),
        ensures
            message == old(self)@.message(job as int, outcome, since_start_ms),
            final(self)@ == old(self)@.report(job as int, outcome),
            final(self).wf(),
    {
        if job >= self.jobs.len() {
            return None;
        }
        match self.jobs[job] {
            JobStatus::Running => {
                proof {
                    lemma_count_update(
                        self.jobs@,
                        job as int,
                        JobStatus::Reported,
                        JobStatus::Reported,
                    );
                    lemma_count_bounds(self.jobs@, JobStatus::Reported);
                    lemma_count_bounds(
                        self.jobs@.update(job as int, JobStatus::Reported),
                        JobStatus::Reported,
                    );
                }
                self.jobs.set(job, JobStatus::Reported);
                self.reported = self.reported + 1;
                let remaining_ms = match &outcome {
                    Outcome::Success(_) => {
                        self.succeeded = self.succeeded + 1;
                        Some(estimate_remaining(since_start_ms, self.reported, self.jobs.len()))
                    },
                    _ => None,
                };
                Some(ProgressMessage { job, outcome, remaining_ms })
            },
            _ => None,
        }
    }

    /// Whether the batch is over: every job has reported or was dropped.
    pub fn is_terminated(&self) -> (b: bool)
        ensures
            b == self@.terminated(),
    {
        let mut i: usize = 0;
        while i < self.jobs.len()
            invariant
                0 <= i <= self.jobs@.len(),
                forall|j: int|
                    0 <= j < i ==> #[trigger] self.jobs@[j] == JobStatus::Reported || self.jobs@[j]
                        == JobStatus::Dropped,
            decreases self.jobs@.len() - i,
        {
            match self.jobs[i] {
                JobStatus::Reported => {},
                JobStatus::Dropped => {},
                _ => {
                    return false;
                },
            }
            i += 1;
        }
        true
    }

    /// Number of messages produced so far.
    pub fn messages(&self) -> (n: usize)
        ensures
            n == self@.reported,
    {
        self.reported
    }
}

/// One thing that happens to a batch.
pub enum Step {
    /// An interrupt arrives.
    Cancel,
    /// A worker asks to start a job.
    Claim(int),
    /// A worker reports a job.
    Report(int, Outcome),
}

impl Batch {
    /// The batch after one step.
    pub open spec fn step(self, step: Step) -> Batch {
        match step {
            Step::Cancel => self.cancel(),
            Step::Claim(job) => self.claim(job),
            Step::Report(job, outcome) => self.report(job, outcome),
        }
    }

    /// Whether the step starts a job.
    pub open spec fn launches(self, step: Step) -> bool {
        step matches Step::Claim(job) && self.may_start(job)
    }

    /// Whether the step produces a message.
    pub open spec fn emits(self, step: Step) -> bool {
        step matches Step::Report(job, _) && self.runs(job)
    }

    /// Whether the step produces the message of job `job`.
    pub open spec fn emits_for(self, step: Step, job: int) -> bool {
        step matches Step::Report(j, _) && j == job && self.runs(job)
    }
}

/// The batch after a sequence of steps.
pub open spec fn run(start: Batch, steps: Seq<Step>) -> Batch
    decreases steps.len(),
{
    if steps.len() == 0 {
        start
    } else {
        run(start, steps.drop_last()).step(steps.last())
    }
}

/// Number of jobs that the steps started.
pub open spec fn launched(start: Batch, steps: Seq<Step>) -> nat
    decreases steps.len(),
{
    if steps.len() == 0 {
        0
    } else {
        launched(start, steps.drop_last()) + if run(start, steps.drop_last()).launches(
            steps.last(),
        ) {
            1nat
        } else {
            0nat
        }
    }
}

/// Number of messages that the steps produced.
pub open spec fn messages(start: Batch, steps: Seq<Step>) -> nat
    decreases steps.len(),
{
    if steps.len() == 0 {
        0
    } else {
        messages(start, steps.drop_last()) + if run(start, steps.drop_last()).emits(
            steps.last(),
        ) {
            1nat
        } else {
            0nat
        }
    }
}

/// Number of messages that the steps produced for job `job`.
pub open spec fn messages_for(start: Batch, steps: Seq<Step>, job: int) -> nat
    decreases steps.len(),
{
    if steps.len() == 0 {
        0
    } else {
        messages_for(start, steps.drop_last(), job) + if run(start, steps.drop_last()).emits_for(
            steps.last(),
            job,
        ) {
            1nat
        } else {
            0nat
        }
    }
}

/// Whether the steps started job `job`.
pub open spec fn was_launched(start: Batch, steps: Seq<Step>, job: int) -> bool
    decreases steps.len(),
{
    if steps.len() == 0 {
        false
    } else {
        was_launched(start, steps.drop_last(), job) || (steps.last() == Step::Claim(job) && run(
            start,
            steps.drop_last(),
        ).may_start(job))
    }
}

/// An interrupt changes no job: a job that runs keeps running. Only its own
/// report ends a running job, and once the batch is cancelled no job
/// starts.
pub proof fn lemma_running_job_is_not_interrupted(batch: Batch, step: Step, job: int)
    requires
        batch.runs(job),
    ensures
        batch.cancel().jobs == batch.jobs,
        batch.step(step).runs(job) || (step matches Step::Report(j, _) && j == job),
        batch.cancelled ==> !batch.launches(step) && batch.step(step).cancelled,
{
}

/// After any steps on a fresh batch: the jobs that were started are those
/// that run or have reported, each message belongs to one reported job, and
/// no job has more than one message. Jobs keep their number, and a
/// cancelled batch stays cancelled.
pub proof fn lemma_batch_accounts(total: nat, steps: Seq<Step>)
    ensures
        ({
            let end = run(Batch::fresh(total), steps);
            &&& end.jobs.len() == total
            &&& end.wf()
            &&& launched(Batch::fresh(total), steps) == count(end.jobs, JobStatus::Running)
                + count(end.jobs, JobStatus::Reported)
            &&& messages(Batch::fresh(total), steps) == count(end.jobs, JobStatus::Reported)
            &&& messages(Batch::fresh(total), steps) == end.reported
        }),
    decreases steps.len(),
{
    let start = Batch::fresh(total);
    if steps.len() == 0 {
        lemma_fresh_counts(total, JobStatus::Running);
        lemma_fresh_counts(total, JobStatus::Reported);
    } else {
        lemma_batch_accounts(total, steps.drop_last());
        let before = run(start, steps.drop_last());
        match steps.last() {
            Step::Cancel => {},
            Step::Claim(job) => {
                if 0 <= job < before.jobs.len() && before.jobs[job] == JobStatus::Pending {
                    let to = if before.cancelled {
                        JobStatus::Dropped
                    } else {
                        JobStatus::Running
                    };
                    lemma_count_update(before.jobs, job, to, JobStatus::Running);
                    lemma_count_update(before.jobs, job, to, JobStatus::Reported);
                }
            },
            Step::Report(job, outcome) => {
                if before.runs(job) {
                    lemma_count_update(before.jobs, job, JobStatus::Reported, JobStatus::Running);
                    lemma_count_update(before.jobs, job, JobStatus::Reported, JobStatus::Reported);
                }
            },
        }
    }
}

proof fn lemma_fresh_counts(total: nat, status: JobStatus)
    requires
        status != JobStatus::Pending,
    ensures
        count(Batch::fresh(total).jobs, status) == 0,
    decreases total,
{
    let jobs = Batch::fresh(total).jobs;
    if total > 0 {
        assert(jobs.drop_last() =~= Batch::fresh((total - 1) as nat).jobs);
        lemma_fresh_counts((total - 1) as nat, status);
    }
}

/// After any steps on a fresh batch, a job has one message if it has
/// reported and none otherwise; it was started exactly if it runs or has
/// reported.
pub proof fn lemma_one_message_per_job(total: nat, steps: Seq<Step>, job: int)
    requires
        0 <= job < total,
    ensures
        ({
            let end = run(Batch::fresh(total), steps);
            &&& end.jobs.len() == total
            &&& messages_for(Batch::fresh(total), steps, job) == if end.jobs[job]
                == JobStatus::Reported {
                1nat
            } else {
                0nat
            }
            &&& was_launched(Batch::fresh(total), steps, job) <==> end.jobs[job]
                == JobStatus::Running || end.jobs[job] == JobStatus::Reported
        }),
    decreases steps.len(),
{
    if steps.len() > 0 {
        lemma_one_message_per_job(total, steps.drop_last(), job);
    }
}

/// When a batch is over, whether it was cancelled on the way or not, every
/// job that was started has produced exactly one message, and the jobs that
/// were never started have produced none.
pub proof fn lemma_finished_batch_has_one_message_per_launch(total: nat, steps: Seq<Step>)
    requires
        run(Batch::fresh(total), steps).terminated(),
    ensures
        messages(Batch::fresh(total), steps) == launched(Batch::fresh(total), steps),
        forall|job: int|
            0 <= job < total ==> #[trigger] messages_for(Batch::fresh(total), steps, job) == if was_launched(
                Batch::fresh(total),
                steps,
                job,
            ) {
                1nat
            } else {
                0nat
            },
{
    let start = Batch::fresh(total);
    let end = run(start, steps);
    lemma_batch_accounts(total, steps);
    lemma_count_bounds(end.jobs, JobStatus::Running);
    assert(count(end.jobs, JobStatus::Running) == 0) by {
        if count(end.jobs, JobStatus::Running) > 0 {
            lemma_count_witness(end.jobs, JobStatus::Running);
        }
    }
    assert forall|job: int| 0 <= job < total implies #[trigger] messages_for(start, steps, job)
        == if was_launched(start, steps, job) {
        1nat
    } else {
        0nat
    } by {
        lemma_one_message_per_job(total, steps, job);
        assert(end.jobs[job] == JobStatus::Reported || end.jobs[job] == JobStatus::Dropped);
    }
}

proof fn lemma_count_witness(jobs: Seq<JobStatus>, status: JobStatus)
    requires
        count(jobs, status) > 0,
    ensures
        exists|i: int| 0 <= i < jobs.len() && jobs[i] == status,
    decreases jobs.len(),
{
    if jobs.len() > 0 {
        if jobs.last() == status {
            assert(jobs[jobs.len() - 1] == status);
        } else {
            lemma_count_witness(jobs.drop_last(), status);
            let i = choose|i: int| 0 <= i < jobs.drop_last().len() && jobs.drop_last()[i] == status;
            assert(jobs[i] == status);
        }
    }
}

} // verus!
