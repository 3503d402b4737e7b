//! Running a list of jobs with a bound on how many run at once.
//!
//! The scheduler runs nothing itself. It says which job may start, is told
//! when one ends, and keeps the results in the order of the jobs, whatever
//! the order in which they end. The first failure stops it from starting
//! anything more.

use vstd::prelude::*;

verus! {

/// Where one job stands.
pub enum Slot<R, T> {
    /// Not started.
    Queued,
    /// Started and not ended, with what the caller keeps about it.
    Running(R),
    /// Ended with a result.
    Done(T),
    /// Ended without one.
    Failed,
}

/// How many jobs are running.
pub open spec fn count_running<R, T>(slots: Seq<Slot<R, T>>) -> nat
    decreases slots.len(),
{
    if slots.len() == 0 {
        0
    } else {
        count_running(slots.drop_last()) + if slots.last() is Running {
            1nat
        } else {
            0nat
        }
    }
}

/// How many jobs have ended, with a result or without.
pub open spec fn count_settled<R, T>(slots: Seq<Slot<R, T>>) -> nat
    decreases slots.len(),
{
    if slots.len() == 0 {
        0
    } else {
        count_settled(slots.drop_last()) + if slots.last() is Done || slots.last() is Failed {
            1nat
        } else {
            0nat
        }
    }
}

/// Whether some job has failed.
pub open spec fn any_failed<R, T>(slots: Seq<Slot<R, T>>) -> bool {
    exists|i: int| 0 <= i < slots.len() && #[trigger] slots[i] is Failed
}

/// Whether every job has ended with a result.
pub open spec fn all_done<R, T>(slots: Seq<Slot<R, T>>) -> bool {
    forall|i: int| 0 <= i < slots.len() ==> #[trigger] slots[i] is Done
}

/// The results of the jobs, each at the position of its job.
pub open spec fn results_of<R, T>(slots: Seq<Slot<R, T>>) -> Seq<T> {
    Seq::new(slots.len(), |i: int| slots[i]->Done_0)
}

/// Replacing one slot changes each count by what the old and the new slot
/// contribute to it.
pub proof fn lemma_count_update<R, T>(slots: Seq<Slot<R, T>>, i: int, slot: Slot<R, T>)
    requires
        0 <= i < slots.len(),
    ensures
        count_running(slots.update(i, slot)) + (if slots[i] is Running {
            1nat
        } else {
            0nat
        }) == count_running(slots) + (if slot is Running {
            1nat
        } else {
            0nat
        }),
        count_settled(slots.update(i, slot)) + (if slots[i] is Done || slots[i] is Failed {
            1nat
        } else {
            0nat
        }) == count_settled(slots) + (if slot is Done || slot is Failed {
            1nat
        } else {
            0nat
        }),
    decreases slots.len(),
{
    let updated = slots.update(i, slot);
    if i == slots.len() - 1 {
        assert(updated.drop_last() =~= slots.drop_last());
    } else {
        assert(updated.drop_last() =~= slots.drop_last().update(i, slot));
        lemma_count_update(slots.drop_last(), i, slot);
    }
}

/// Of jobs that are all queued, none runs and none has ended.
pub proof fn lemma_count_queued<R, T>(slots: Seq<Slot<R, T>>)
    requires
        forall|i: int| 0 <= i < slots.len() ==> #[trigger] slots[i] is Queued,
    ensures
        count_running(slots) == 0,
        count_settled(slots) == 0,
    decreases slots.len(),
{
    if slots.len() > 0 {
        lemma_count_queued(slots.drop_last());
    }
}

/// Where every job has a result, each of them has ended and none runs.
pub proof fn lemma_count_done<R, T>(slots: Seq<Slot<R, T>>)
    requires
        all_done(slots),
    ensures
        count_running(slots) == 0,
        count_settled(slots) == slots.len(),
    decreases slots.len(),
{
    if slots.len() > 0 {
        assert(slots.last() is Done);
        assert(all_done(slots.drop_last())) by {
            let front = slots.drop_last();
            assert forall|i: int| 0 <= i < front.len() implies #[trigger] front[i] is Done by {
                assert(slots[i] is Done);
            }
        }
        lemma_count_done(slots.drop_last());
    }
}

/// No more jobs run or have ended than there are.
pub proof fn lemma_count_bounds<R, T>(slots: Seq<Slot<R, T>>)
    ensures
        count_running(slots) + count_settled(slots) <= slots.len(),
    decreases slots.len(),
{
    if slots.len() > 0 {
        lemma_count_bounds(slots.drop_last());
    }
}

/// Jobs below `started` are not queued, those from `started` on are: then
/// the running and the ended ones are exactly the started ones.
pub proof fn lemma_count_started<R, T>(slots: Seq<Slot<R, T>>, started: int)
    requires
        0 <= started <= slots.len(),
        forall|i: int| 0 <= i < started ==> !(#[trigger] slots[i] is Queued),
        forall|i: int| started <= i < slots.len() ==> #[trigger] slots[i] is Queued,
    ensures
        count_running(slots) + count_settled(slots) == started,
    decreases slots.len(),
{
    if slots.len() > 0 {
        let front = slots.drop_last();
        if started == slots.len() {
            assert(!(slots[started - 1] is Queued));
            lemma_count_started(front, started - 1);
        } else {
            assert(slots[slots.len() - 1] is Queued);
            lemma_count_started(front, started);
        }
    }
}

/// Replacing the slot of a job by one that is not queued keeps the started
/// jobs in front of the queued ones, and a job has failed after it exactly
/// if one had before or the new slot is a failure.
pub proof fn lemma_slot_replaced<R, T>(
    slots: Seq<Slot<R, T>>,
    job: int,
    slot: Slot<R, T>,
    started: int,
)
    requires
        0 <= job < started <= slots.len(),
        !(slot is Queued),
        !(slots[job] is Failed),
        forall|i: int| 0 <= i < started && i != job ==> !(#[trigger] slots[i] is Queued),
        forall|i: int| started <= i < slots.len() ==> #[trigger] slots[i] is Queued,
    ensures
        forall|i: int| 0 <= i < started ==> !(#[trigger] slots.update(job, slot)[i] is Queued),
        forall|i: int|
            started <= i < slots.len() ==> #[trigger] slots.update(job, slot)[i] is Queued,
        any_failed(slots.update(job, slot)) == (any_failed(slots) || slot is Failed),
{
    let after = slots.update(job, slot);
    assert forall|i: int| 0 <= i < started implies !(#[trigger] after[i] is Queued) by {
        if i != job {
            assert(!(slots[i] is Queued));
        }
    }
    assert forall|i: int| started <= i < slots.len() implies #[trigger] after[i] is Queued by {
        assert(slots[i] is Queued);
    }
    if any_failed(after) && !(slot is Failed) {
        let i = choose|i: int| 0 <= i < after.len() && #[trigger] after[i] is Failed;
        assert(slots[i] is Failed);
    }
    if any_failed(slots) {
        let i = choose|i: int| 0 <= i < slots.len() && #[trigger] slots[i] is Failed;
        assert(after[i] is Failed);
    }
    if slot is Failed {
        assert(after[job] is Failed);
    }
}

/// A list of jobs, of which at most `limit` run at any time.
pub struct Scheduler<R, T> {
    limit: usize,
    slots: Vec<Slot<R, T>>,
    next: usize,
    running: usize,
    settled: usize,
    failed: bool,
}

impl<R, T> Scheduler<R, T> {
    /// Where each job stands.
    pub closed spec fn slots(&self) -> Seq<Slot<R, T>> {
        self.slots@
    }

    /// How many jobs may run at once.
    pub closed spec fn limit(&self) -> nat {
        self.limit as nat
    }

    /// How many jobs have been started; they are the first ones.
    pub closed spec fn started(&self) -> nat {
        self.next as nat
    }

    /// How many jobs are running.
    pub open spec fn running(&self) -> nat {
        count_running(self.slots())
    }

    /// How many jobs have ended.
    pub open spec fn settled(&self) -> nat {
        count_settled(self.slots())
    }

    /// Whether a job has failed.
    pub open spec fn failed(&self) -> bool {
        any_failed(self.slots())
    }

    /// Whether the next job may start: nothing has failed, a job is left and
    /// fewer than `limit` are running.
    pub open spec fn can_start(&self) -> bool {
        &&& !self.failed()
        &&& self.started() < self.slots().len()
        &&& self.running() < self.limit()
    }

    /// Whether job `job` is running.
    pub open spec fn is_running(&self, job: int) -> bool {
        0 <= job < self.slots().len() && self.slots()[job] is Running
    }

    /// What holds of every scheduler: the started jobs are the first ones,
    /// and no more than `limit` of them run.
    pub closed spec fn inv(&self) -> bool {
        &&& self.limit >= 1
        &&& self.next <= self.slots@.len()
        &&& forall|i: int| 0 <= i < self.next ==> !(#[trigger] self.slots@[i] is Queued)
        &&& forall|i: int|
            self.next <= i < self.slots@.len() ==> #[trigger] self.slots@[i] is Queued
        &&& self.running == count_running(self.slots@)
        &&& self.settled == count_settled(self.slots@)
        &&& self.running <= self.limit
        &&& self.failed == any_failed(self.slots@)
    }

    /// The bound on running jobs and the bookkeeping that every scheduler
    /// keeps: never more than `limit` jobs run, every started job runs or has
    /// ended, and the jobs not yet started are queued.
    pub proof fn lemma_inv(&self)
        requires
            self.inv(),
        ensures
            1 <= self.limit(),
            self.running() <= self.limit(),
            self.running() + self.settled() == self.started(),
            self.started() <= self.slots().len(),
            forall|i: int| 0 <= i < self.started() ==> !(#[trigger] self.slots()[i] is Queued),
            forall|i: int|
                self.started() <= i < self.slots().len() ==> #[trigger] self.slots()[i] is Queued,
    {
        lemma_count_started(self.slots@, self.next as int);
    }

    /// A scheduler of `total` queued jobs.
    pub fn new(total: usize, limit: usize) -> (scheduler: Self)
        requires
            limit >= 1,
        ensures
            scheduler.inv(),
            scheduler.limit() == limit,
            scheduler.started() == 0,
            scheduler.slots() == Seq::new(total as nat, |i: int| Slot::<R, T>::Queued),
    {
        let mut slots: Vec<Slot<R, T>> = Vec::new();
        let mut i: usize = 0;
        while i < total
            invariant
                i <= total,
                slots@ == Seq::new(i as nat, |k: int| Slot::<R, T>::Queued),
            decreases total - i,
        {
            slots.push(Slot::Queued);
            assert(slots@ =~= Seq::new((i + 1) as nat, |k: int| Slot::<R, T>::Queued));
            i += 1;
        }
        proof {
            lemma_count_queued(slots@);
        }
        Scheduler { limit, slots, next: 0, running: 0, settled: 0, failed: false }
    }

    /// Number of jobs.
    pub fn total(&self) -> (total: usize)
        ensures
            total == self.slots().len(),
    {
        self.slots.len()
    }

    /// Number of jobs that are running.
    pub fn in_flight(&self) -> (running: usize)
        requires
            self.inv(),
        ensures
            running == self.running(),
            running <= self.limit(),
    {
        self.running
    }

    /// Number of jobs that have ended, with a result or without.
    pub fn progress(&self) -> (settled: usize)
        requires
            self.inv(),
        ensures
            settled == self.settled(),
    {
        self.settled
    }

    /// Whether a job has failed.
    pub fn has_failed(&self) -> (failed: bool)
        requires
            self.inv(),
        ensures
            failed == self.failed(),
    {
        self.failed
    }

    /// The job that may start now, if one may.
    pub fn next_job(&self) -> (job: Option<usize>)
        requires
            self.inv(),
        ensures
            job is Some <==> self.can_start(),
            job matches Some(j) ==> j == self.started(),
    {
        if !self.failed && self.next < self.slots.len() && self.running < self.limit {
            Some(self.next)
        } else {
            None
        }
    }

    /// What the caller keeps about a running job; nothing for another job.
    pub fn state(&self, job: usize) -> (state: Option<&R>)
        ensures
            state is Some <==> self.is_running(job as int),
            state matches Some(r) ==> self.slots()[job as int] == Slot::<R, T>::Running(*r),
    {
        if job < self.slots.len() {
            match &self.slots[job] {
                Slot::Running(state) => Some(state),
                _ => None,
            }
        } else {
            None
        }
    }

    /// Starts the next job, if one may start, and says which it is.
    pub fn start(&mut self, state: R) -> (job: Option<usize>)
        requires
            old(self).inv(),
        ensures
            final(self).inv(),
            final(self).limit() == old(self).limit(),
            job is Some <==> old(self).can_start(),
            job is None ==> *final(self) == *old(self),
            job matches Some(j) ==> j == old(self).started() && final(self).started() == j + 1
                && final(self).slots() == old(self).slots().update(
                j as int,
                Slot::Running(state),
            ),
    {
        if !self.failed && self.next < self.slots.len() && self.running < self.limit {
            let job = self.next;
            proof {
                lemma_count_update(self.slots@, job as int, Slot::Running(state));
                lemma_slot_replaced(self.slots@, job as int, Slot::Running(state), job + 1);
            }
            self.slots.set(job, Slot::Running(state));
            self.next = job + 1;
            self.running = self.running + 1;
            Some(job)
        } else {
            None
        }
    }

    /// Fails the next job without running it, if one may start, and says
    /// which it is.
    pub fn reject(&mut self) -> (job: Option<usize>)
        requires
            old(self).inv(),
        ensures
            final(self).inv(),
            final(self).limit() == old(self).limit(),
            job is Some <==> old(self).can_start(),
            job is None ==> *final(self) == *old(self),
            job matches Some(j) ==> j == old(self).started() && final(self).started() == j + 1
                && final(self).slots() == old(self).slots().update(j as int, Slot::Failed),
    {
        if !self.failed && self.next < self.slots.len() && self.running < self.limit {
            let job = self.next;
            proof {
                lemma_count_update(self.slots@, job as int, Slot::Failed);
                lemma_count_bounds(self.slots@.update(job as int, Slot::Failed));
                lemma_slot_replaced(self.slots@, job as int, Slot::Failed, job + 1);
            }
            self.slots.set(job, Slot::Failed);
            self.next = job + 1;
            self.settled = self.settled + 1;
            self.failed = true;
            Some(job)
        } else {
            None
        }
    }

    /// Replaces what is kept about a running job. Says whether `job` is
    /// running; nothing changes if it is not.
    pub fn advance(&mut self, job: usize, state: R) -> (running: bool)
        requires
            old(self).inv(),
        ensures
            final(self).inv(),
            final(self).limit() == old(self).limit(),
            final(self).started() == old(self).started(),
            running == old(self).is_running(job as int),
            !running ==> *final(self) == *old(self),
            running ==> final(self).slots() == old(self).slots().update(
                job as int,
                Slot::Running(state),
            ),
    {
        if !self.runs(job) {
            return false;
        }
        proof {
            lemma_count_update(self.slots@, job as int, Slot::Running(state));
            lemma_slot_replaced(self.slots@, job as int, Slot::Running(state), self.next as int);
        }
        self.slots.set(job, Slot::Running(state));
        true
    }

    /// Ends a running job with its result. Says whether `job` was running;
    /// nothing changes if it was not.
    pub fn complete(&mut self, job: usize, value: T) -> (running: bool)
        requires
            old(self).inv(),
        ensures
            final(self).inv(),
            final(self).limit() == old(self).limit(),
            final(self).started() == old(self).started(),
            running == old(self).is_running(job as int),
            !running ==> *final(self) == *old(self),
            running ==> final(self).slots() == old(self).slots().update(
                job as int,
                Slot::Done(value),
            ),
    {
        if !self.runs(job) {
            return false;
        }
        proof {
            lemma_count_update(self.slots@, job as int, Slot::Done(value));
            lemma_count_bounds(self.slots@.update(job as int, Slot::Done(value)));
            lemma_slot_replaced(self.slots@, job as int, Slot::Done(value), self.next as int);
        }
        self.slots.set(job, Slot::Done(value));
        self.running = self.running - 1;
        self.settled = self.settled + 1;
        true
    }

    /// Ends a running job without a result; no job starts after that. Says
    /// whether `job` was running; nothing changes if it was not.
    pub fn fail(&mut self, job: usize) -> (running: bool)
        requires
            old(self).inv(),
        ensures
            final(self).inv(),
            final(self).limit() == old(self).limit(),
            final(self).started() == old(self).started(),
            running == old(self).is_running(job as int),
            !running ==> *final(self) == *old(self),
            running ==> final(self).slots() == old(self).slots().update(job as int, Slot::Failed),
    {
        if !self.runs(job) {
            return false;
        }
        proof {
            lemma_count_update(self.slots@, job as int, Slot::Failed);
            lemma_count_bounds(self.slots@.update(job as int, Slot::Failed));
            lemma_slot_replaced(self.slots@, job as int, Slot::Failed, self.next as int);
        }
        self.slots.set(job, Slot::Failed);
        self.running = self.running - 1;
        self.settled = self.settled + 1;
        self.failed = true;
        true
    }

    fn runs(&self, job: usize) -> (running: bool)
        ensures
            running == self.is_running(job as int),
            self.slots@.len() <= usize::MAX,
    {
        if job < self.slots.len() {
            match &self.slots[job] {
                Slot::Running(_) => true,
                _ => false,
            }
        } else {
            false
        }
    }

    /// Whether every job has ended with a result.
    pub fn is_complete(&self) -> (complete: bool)
        requires
            self.inv(),
        ensures
            complete == all_done(self.slots()),
    {
        proof {
            lemma_count_started(self.slots@, self.next as int);
            lemma_count_bounds(self.slots@);
        }
        if self.failed || self.settled < self.slots.len() {
            proof {
                if all_done(self.slots@) {
                    lemma_count_done(self.slots@);
                    if self.failed {
                        let i = choose|i: int|
                            0 <= i < self.slots@.len() && #[trigger] self.slots@[i] is Failed;
                        assert(self.slots@[i] is Done);
                    }
                }
            }
            false
        } else {
            proof {
                lemma_all_settled(self.slots@);
            }
            true
        }
    }

    /// The results in the order of the jobs, once every job has ended with
    /// one.
    pub fn into_results(self) -> (results: Vec<T>)
        requires
            self.inv(),
            all_done(self.slots()),
        ensures
            results@ == results_of(self.slots()),
    {
        let ghost slots = self.slots@;
        let mut results: Vec<T> = Vec::new();
        for slot in it: self.slots
            invariant
                it.seq() == slots,
                all_done(slots),
                results@ == results_of(slots.take(it.index() as int)),
        {
            assert(slots[it.index() as int] is Done);
            if let Slot::Done(value) = slot {
                results.push(value);
            }
            assert(results@ =~= results_of(slots.take(it.index() + 1)));
        }
        assert(slots.take(slots.len() as int) =~= slots);
        results
    }
}

/// Where as many jobs have ended as there are and none has failed, each has
/// a result.
pub proof fn lemma_all_settled<R, T>(slots: Seq<Slot<R, T>>)
    requires
        count_settled(slots) == slots.len(),
        !any_failed(slots),
    ensures
        all_done(slots),
    decreases slots.len(),
{
    if slots.len() > 0 {
        let front = slots.drop_last();
        lemma_count_bounds(front);
        assert(!any_failed(front)) by {
            if any_failed(front) {
                let i = choose|i: int| 0 <= i < front.len() && #[trigger] front[i] is Failed;
                assert(slots[i] is Failed);
            }
        }
        lemma_all_settled(front);
        assert(!(slots[slots.len() - 1] is Failed));
        assert forall|i: int| 0 <= i < slots.len() implies #[trigger] slots[i] is Done by {
            if i < front.len() {
                assert(front[i] is Done);
            }
        }
    }
}

} // verus!
