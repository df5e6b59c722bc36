//! The task scheduler: an open-ended set of jobs run on one logical worker.
//!
//! Jobs are submitted through a queue and run cooperatively: the worker
//! polls one job at a time, in turn, and a job gives the worker back only
//! at a suspension point. The scheduler decides which job is polled next,
//! when the worker has to wait, and when the run is over. The jobs
//! themselves are known to it by number only.

use crate::lists::{find, position};
use vstd::prelude::*;

verus! {

/// The number by which the scheduler knows a job.
#[derive(Clone, Copy, Debug, PartialEq, Eq, Structural)]
pub struct JobId(pub u64);

/// What the worker does next.
#[derive(Clone, Copy, Debug, PartialEq, Eq, Structural)]
pub enum SchedulerAction {
    /// Poll this job once.
    Poll(JobId),
    /// No job is there to poll, but more may be submitted: wait for one.
    Wait,
    /// The submission queue is closed and no job remains: the run is over.
    Stop,
}

/// What a scheduler holds, as plain values.
pub struct SchedulerView {
    /// The jobs being run, the one to poll next first.
    pub active: Seq<u64>,
    /// The jobs submitted and not yet taken into the active set, oldest
    /// first.
    pub submitted: Seq<u64>,
    /// Whether the submission queue has been closed.
    pub closed: bool,
    /// The number that the next job is given.
    pub next_job: nat,
}

impl SchedulerView {
    /// Every job that was submitted and has not completed, the active ones
    /// first.
    pub open spec fn jobs(self) -> Seq<u64> {
        self.active + self.submitted
    }

    /// Whether a job can be submitted.
    pub open spec fn accepts(self) -> bool {
        !self.closed && self.next_job < u64::MAX
    }

    /// A job is submitted.
    pub open spec fn submit(self) -> SchedulerView {
        SchedulerView {
            submitted: self.submitted.push(self.next_job as u64),
            next_job: self.next_job + 1,
            ..self
        }
    }

    /// The submissions are merged into the active set, behind the jobs that
    /// are there already. None is dropped.
    pub open spec fn merged(self) -> SchedulerView {
        SchedulerView { active: self.jobs(), submitted: Seq::empty(), ..self }
    }

    /// What the worker does next: a job is polled as long as there is one,
    /// and the run stops exactly when the queue is closed and no job
    /// remains.
    pub open spec fn action(self) -> SchedulerAction {
        if self.jobs().len() > 0 {
            SchedulerAction::Poll(JobId(self.jobs()[0]))
        } else if self.closed {
            SchedulerAction::Stop
        } else {
            SchedulerAction::Wait
        }
    }

    /// The scheduler after the worker has been told what to do: submissions
    /// are merged, and the job to poll goes to the back of the active set,
    /// so that the jobs are polled in turn.
    pub open spec fn advanced(self) -> SchedulerView {
        if self.jobs().len() > 0 {
            SchedulerView {
                active: self.jobs().drop_first().push(self.jobs()[0]),
                submitted: Seq::empty(),
                ..self
            }
        } else {
            self
        }
    }

    /// A job has completed: it leaves the set. Submissions are merged on
    /// the way; an unknown job changes nothing else.
    pub open spec fn completed(self, job: u64) -> SchedulerView {
        if self.jobs().contains(job) {
            SchedulerView {
                active: self.jobs().remove(position(self.jobs(), job)),
                submitted: Seq::empty(),
                ..self
            }
        } else {
            self.merged()
        }
    }
}

/// The run is over exactly when the submission queue is closed and no job
/// remains, and never before.
pub proof fn lemma_stop_exactly_when_done(v: SchedulerView)
    ensures
        v.action() == SchedulerAction::Stop <==> v.closed && v.jobs().len() == 0,
        v.action() == SchedulerAction::Wait <==> !v.closed && v.jobs().len() == 0,
{
}

/// A submission made at any time is not dropped: the job is polled after
/// the jobs that were there before it, and before the run can stop.
pub proof fn lemma_submission_is_kept(v: SchedulerView)
    requires
        v.accepts(),
    ensures
        v.submit().jobs() == v.jobs().push(v.next_job as u64),
        v.submit().action() != SchedulerAction::Stop,
        v.submit().advanced().active.contains(v.next_job as u64),
{
    let after = v.submit();
    let job = v.next_job as u64;
    assert(after.jobs() =~= v.jobs().push(job));
    let turned = after.jobs().drop_first().push(after.jobs()[0]);
    if v.jobs().len() == 0 {
        assert(turned[0] == job);
    } else {
        assert(turned[v.jobs().len() - 1] == job);
    }
}

/// The scheduler after the worker has been told `k` times what to do, with
/// no job submitted or completed in between.
pub open spec fn advanced_times(v: SchedulerView, k: nat) -> SchedulerView
    decreases k,
{
    if k == 0 {
        v
    } else {
        advanced_times(v, (k - 1) as nat).advanced()
    }
}

/// The jobs of a scheduler after `k` turns: the same jobs, `k` places on.
proof fn lemma_jobs_after_turns(v: SchedulerView, k: nat)
    requires
        v.jobs().len() > 0,
    ensures
        advanced_times(v, k).jobs() == Seq::new(
            v.jobs().len(),
            |i: int| v.jobs()[(i + k) % (v.jobs().len() as int)],
        ),
    decreases k,
{
    let n = v.jobs().len() as int;
    let turned = Seq::new(v.jobs().len(), |i: int| v.jobs()[(i + k) % n]);
    if k == 0 {
        assert forall|i: int| 0 <= i < n implies v.jobs()[i] == #[trigger] turned[i] by {
            vstd::arithmetic::div_mod::lemma_small_mod(i as nat, n as nat);
        }
        assert(advanced_times(v, k).jobs() =~= turned);
    } else {
        lemma_jobs_after_turns(v, (k - 1) as nat);
        let before = advanced_times(v, (k - 1) as nat);
        assert(before.jobs().len() == n);
        let after = before.advanced();
        assert(after.jobs() =~= before.jobs().drop_first().push(before.jobs()[0]));
        assert forall|i: int| 0 <= i < n implies after.jobs()[i] == #[trigger] turned[i] by {
            if i < n - 1 {
                assert(after.jobs()[i] == before.jobs()[i + 1]);
                assert((i + 1 + (k - 1)) % n == (i + k) % n);
            } else {
                assert(after.jobs()[i] == before.jobs()[0]);
                vstd::arithmetic::div_mod::lemma_mod_add_multiples_vanish(k - 1, n);
                assert((0int + (k - 1)) % n == (n - 1 + k) % n);
            }
        }
        assert(after.jobs() =~= turned);
    }
}

/// Jobs are polled in turn: with `n` jobs and none submitted or completed
/// in between, the turn that comes after `k` turns polls the job that stood
/// `k` places, counted round the set, behind the first.
pub proof fn lemma_polled_in_turn(v: SchedulerView, k: nat)
    requires
        v.jobs().len() > 0,
    ensures
        advanced_times(v, k).action() == SchedulerAction::Poll(
            JobId(v.jobs()[(k as int) % (v.jobs().len() as int)]),
        ),
{
    lemma_jobs_after_turns(v, k);
    let n = v.jobs().len() as int;
    assert((0int + k) % n == (k as int) % n);
}

/// The scheduler.
pub struct Scheduler {
    active: Vec<u64>,
    submitted: Vec<u64>,
    closed: bool,
    next_job: u64,
}

impl View for Scheduler {
    type V = SchedulerView;

    closed spec fn view(&self) -> SchedulerView {
        SchedulerView {
            active: self.active@,
            submitted: self.submitted@,
            closed: self.closed,
            next_job: self.next_job as nat,
        }
    }
}

impl Scheduler {
    /// A scheduler with no job and an open submission queue.
    pub fn new() -> (s: Self)
        ensures
            s@ == (SchedulerView {
                active: Seq::empty(),
                submitted: Seq::empty(),
                closed: false,
                next_job: 0,
            }),
    {
        Scheduler { active: Vec::new(), submitted: Vec::new(), closed: false, next_job: 0 }
    }

    /// Whether a job can be submitted: the queue is open and a number is
    /// left to give to the job.
    pub fn accepts(&self) -> (r: bool)
        ensures
            r == self@.accepts(),
    {
        !self.closed && self.next_job < u64::MAX
    }

    /// Whether the submission queue has been closed.
    pub fn is_closed(&self) -> (r: bool)
        ensures
            r == self@.closed,
    {
        self.closed
    }

    /// Whether no job is left, active or submitted.
    pub fn is_idle(&self) -> (r: bool)
        ensures
            r == (self@.jobs().len() == 0),
    {
        self.active.len() == 0 && self.submitted.len() == 0
    }

    /// Submits a job and returns the number under which it is known.
    pub fn submit(&mut self) -> (job: JobId)
        requires
            old(self)@.accepts(),
        ensures
            final(self)@ == old(self)@.submit(),
            job.0 == old(self)@.next_job,
    {
        let job = self.next_job;
        self.submitted.push(job);
        self.next_job = job + 1;
        JobId(job)
    }

    /// Closes the submission queue.
    pub fn close(&mut self)
        ensures
            final(self)@ == (SchedulerView { closed: true, ..old(self)@ }),
    {
        self.closed = true;
    }

    /// Takes the submitted jobs into the active set.
    fn merge(&mut self)
        ensures
            final(self)@ == old(self)@.merged(),
    {
        self.active.append(&mut self.submitted);
    }

    /// Decides what the worker does next, and moves on: the job to poll
    /// goes to the back of the active set.
    pub fn next_action(&mut self) -> (action: SchedulerAction)
        ensures
            action == old(self)@.action(),
            final(self)@ == old(self)@.advanced(),
    {
        self.merge();
        if self.active.len() > 0 {
            let job = self.active.remove(0);
            self.active.push(job);
            proof {
                assert(self@.active =~= old(self)@.jobs().drop_first().push(old(self)@.jobs()[0]));
            }
            SchedulerAction::Poll(JobId(job))
        } else if self.closed {
            proof {
                assert(self@.submitted =~= old(self)@.submitted);
                assert(self@.active =~= old(self)@.active);
            }
            SchedulerAction::Stop
        } else {
            proof {
                assert(self@.submitted =~= old(self)@.submitted);
                assert(self@.active =~= old(self)@.active);
            }
            SchedulerAction::Wait
        }
    }

    /// Reports that a job has completed. Tells whether the job was known.
    pub fn job_completed(&mut self, job: JobId) -> (known: bool)
        ensures
            final(self)@ == old(self)@.completed(job.0),
            known == old(self)@.jobs().contains(job.0),
    {
        self.merge();
        match find(&self.active, job.0) {
            Some(at) => {
                let _ = self.active.remove(at);
                true
            },
            None => false,
        }
    }
}

/// A reusable suspension point.
///
/// A job that has much to compute polls it once per unit of work. The first
/// poll after it is armed asks to be woken at once and reports that the job
/// is suspended, which lets the worker poll the other jobs; the poll after
/// that reports that the job may go on.
#[derive(Debug)]
pub struct YieldOnce {
    pending: bool,
}

/// What a poll of [`YieldOnce`] reports.
#[derive(Clone, Copy, Debug, PartialEq, Eq, Structural)]
pub enum YieldPoll {
    /// The job gives the worker up. It has asked to be woken right away.
    WakeAndSuspend,
    /// The job goes on.
    Ready,
}

impl View for YieldOnce {
    type V = bool;

    /// Whether the suspension is still to come.
    closed spec fn view(&self) -> bool {
        self.pending
    }
}

impl YieldOnce {
    /// An armed suspension point.
    pub fn new() -> (y: Self)
        ensures
            y@,
    {
        YieldOnce { pending: true }
    }

    /// Arms the suspension point again.
    pub fn rearm(&mut self)
        ensures
            final(self)@,
    {
        self.pending = true;
    }

    /// Polls the suspension point: suspends once, then is ready.
    pub fn poll(&mut self) -> (r: YieldPoll)
        ensures
            !final(self)@,
            r == (if old(self)@ {
                YieldPoll::WakeAndSuspend
            } else {
                YieldPoll::Ready
            }),
    {
        if self.pending {
            self.pending = false;
            YieldPoll::WakeAndSuspend
        } else {
            YieldPoll::Ready
        }
    }
}

} // verus!
