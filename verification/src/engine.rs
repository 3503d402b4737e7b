//! Checking a list of store paths against a list of binary caches.
//!
//! A `Check` holds the state of one run. It sends nothing itself: it tells
//! its caller which URL to probe, is told each answer, and says what to do
//! next. At most `limit` paths are being resolved at any time, each path is
//! resolved cache by cache until one decides, and the first error ends the
//! run.

use vstd::prelude::*;
use crate::failure::Failure;
use crate::probe::{narinfo_url, narinfo_url_of, ProbeResult};
use crate::resolver::{lemma_decisive_unique, probes_needed, resolve, step, step_of, Step};
use crate::scheduler::{
    all_done, any_failed, count_running, count_settled, lemma_all_settled, lemma_count_done,
    lemma_count_update, lemma_slot_replaced, Scheduler, Slot,
};
use crate::store_path::{is_store_path, is_valid_store_path};
use crate::summary::{lemma_partition, RunSummary};

verus! {

/// Number of paths that are resolved at once unless the caller says otherwise.
pub const DEFAULT_CONCURRENCY: usize = 100;

/// What the caller of a `Check` has to do next.
#[derive(Debug, PartialEq, Eq)]
pub enum Action {
    /// Probe `url`, which asks the first cache for the path at position
    /// `path`, and record the answer for that path.
    Probe { path: usize, url: String },
    /// Nothing can start: wait for a probe to end and record its answer.
    Wait,
    /// Every path is resolved: `finish` gives the summary.
    Finish,
    /// The run has failed: `finish` gives the error.
    Abort,
}

/// What an answer did to the path it is about.
#[derive(Debug, PartialEq, Eq)]
pub enum Outcome {
    /// The cache does not have the path: probe `url`, which asks the next
    /// cache, and record the answer for the same path.
    Probe { url: String },
    /// The path is resolved: one step of progress.
    Resolved { available: bool },
    /// The path failed and the run with it: one step of progress.
    Failed,
    /// The answer was dropped: the path is not being probed, or the run has
    /// failed already.
    Ignored,
}

/// Every answer but the last is `Absent`: no cache was asked after one that
/// had the path or failed.
pub open spec fn only_last_decides(answers: Seq<ProbeResult>) -> bool {
    forall|k: int| 0 <= k < answers.len() - 1 ==> #[trigger] answers[k] is Absent
}

/// The state of a path agrees with the answers recorded for it.
pub open spec fn slot_matches(
    slot: Slot<usize, bool>,
    answers: Seq<ProbeResult>,
    path: Seq<char>,
    endpoints: nat,
) -> bool {
    &&& only_last_decides(answers)
    &&& answers.len() <= endpoints
    &&& match slot {
        Slot::Queued => answers.len() == 0,
        Slot::Running(endpoint) => {
            &&& is_store_path(path)
            &&& endpoint == answers.len()
            &&& endpoint < endpoints
            &&& answers.len() > 0 ==> answers.last() is Absent
        },
        Slot::Done(available) => {
            &&& is_store_path(path)
            &&& answers.len() > 0
            &&& if available {
                answers.last() is Present
            } else {
                answers.last() is Absent && answers.len() == endpoints
            }
        },
        Slot::Failed => if is_store_path(path) {
            answers.len() > 0 && answers.last() is Failed
        } else {
            answers.len() == 0
        },
    }
}

/// The error of a failed path: that it is no store path, or the error that a
/// cache answered with.
pub open spec fn failure_matches(
    error: Failure,
    answers: Seq<ProbeResult>,
    path: Seq<char>,
) -> bool {
    if is_store_path(path) {
        answers.len() > 0 && answers.last() == ProbeResult::Failed(error)
    } else {
        error matches Failure::InvalidStorePath(text) && text@ == path
    }
}

/// Which paths are available, by the state of each.
pub open spec fn availability(slots: Seq<Slot<usize, bool>>) -> Seq<bool> {
    Seq::new(slots.len(), |i: int| slots[i] == Slot::<usize, bool>::Done(true))
}

/// One run of checking store paths against binary caches.
pub struct Check {
    binary_caches: Vec<String>,
    store_paths: Vec<String>,
    scheduler: Scheduler<usize, bool>,
    failure: Option<Failure>,
    answers: Ghost<Seq<Seq<ProbeResult>>>,
}

impl Check {
    /// The URLs of the caches, in the order in which they are asked.
    pub closed spec fn caches(&self) -> Seq<Seq<char>> {
        self.binary_caches.deep_view()
    }

    /// The store paths, in the order in which they were given.
    pub closed spec fn paths(&self) -> Seq<Seq<char>> {
        self.store_paths.deep_view()
    }

    /// Where each path stands: queued, being probed at the cache of some
    /// position, resolved, or failed.
    pub closed spec fn slots(&self) -> Seq<Slot<usize, bool>> {
        self.scheduler.slots()
    }

    /// How many paths may be resolved at once.
    pub closed spec fn limit(&self) -> nat {
        self.scheduler.limit()
    }

    /// How many paths have been started; they are the first ones.
    pub closed spec fn started(&self) -> nat {
        self.scheduler.started()
    }

    /// The error that ended the run, if one did.
    pub closed spec fn failure(&self) -> Option<Failure> {
        self.failure
    }

    /// For each path, the answers recorded for it, in the order of the caches.
    pub closed spec fn answers(&self) -> Seq<Seq<ProbeResult>> {
        self.answers@
    }

    /// How many paths are being resolved.
    pub open spec fn in_flight(&self) -> nat {
        count_running(self.slots())
    }

    /// How many paths have been resolved or have failed: the steps of
    /// progress so far.
    pub open spec fn completed(&self) -> nat {
        count_settled(self.slots())
    }

    /// Whether the path at position `path` is being probed.
    pub open spec fn is_probing(&self, path: int) -> bool {
        0 <= path < self.slots().len() && self.slots()[path] is Running
    }

    /// Whether an answer for `path` is taken: the run has not failed and the
    /// path is being probed.
    pub open spec fn accepts(&self, path: int) -> bool {
        self.failure() is None && self.is_probing(path)
    }

    /// Whether the next path may start.
    pub open spec fn can_start(&self) -> bool {
        &&& self.failure() is None
        &&& self.started() < self.slots().len()
        &&& self.in_flight() < self.limit()
    }

    /// Whether the run is over: it has failed, or every path is resolved.
    pub open spec fn is_finished(&self) -> bool {
        self.failure() is Some || all_done(self.slots())
    }

    /// The state of the path at position `i` agrees with the answers
    /// recorded for it.
    spec fn agrees(&self, i: int) -> bool {
        slot_matches(
            self.scheduler.slots()[i],
            self.answers@[i],
            self.store_paths@[i]@,
            self.binary_caches.len() as nat,
        )
    }

    /// If the path at position `i` has failed, the run has failed with the
    /// error of that path.
    spec fn blames(&self, i: int) -> bool {
        self.scheduler.slots()[i] is Failed ==> self.failure is Some && failure_matches(
            self.failure->Some_0,
            self.answers@[i],
            self.store_paths@[i]@,
        )
    }

    /// What holds of every run, in whatever order the answers arrive.
    pub closed spec fn inv(&self) -> bool {
        &&& self.scheduler.inv()
        &&& self.binary_caches.len() >= 1
        &&& self.scheduler.slots().len() == self.store_paths.len()
        &&& self.answers@.len() == self.store_paths.len()
        &&& self.failure is Some <==> any_failed(self.scheduler.slots())
        &&& forall|i: int| 0 <= i < self.store_paths.len() ==> #[trigger] self.agrees(i)
        &&& forall|i: int| 0 <= i < self.store_paths.len() ==> #[trigger] self.blames(i)
    }

    /// What every run keeps to: there is a cache, no more than `limit` paths
    /// are in flight, the paths that are in flight or completed are the
    /// started ones, the state of each path agrees with the answers recorded
    /// for it, and the run has failed exactly if a path has.
    pub proof fn lemma_inv(&self)
        requires
            self.inv(),
        ensures
            self.caches().len() >= 1,
            self.limit() >= 1,
            self.slots().len() == self.paths().len(),
            self.answers().len() == self.paths().len(),
            self.in_flight() <= self.limit(),
            self.in_flight() + self.completed() == self.started() <= self.paths().len(),
            self.failure() is Some <==> any_failed(self.slots()),
            forall|i: int|
                0 <= i < self.paths().len() ==> slot_matches(
                    #[trigger] self.slots()[i],
                    self.answers()[i],
                    self.paths()[i],
                    self.caches().len(),
                ),
            forall|i: int|
                0 <= i < self.paths().len() && #[trigger] self.slots()[i] is Failed
                    ==> self.failure() is Some && failure_matches(
                    self.failure()->Some_0,
                    self.answers()[i],
                    self.paths()[i],
                ),
            forall|i: int| 0 <= i < self.started() ==> !(#[trigger] self.slots()[i] is Queued),
            forall|i: int|
                self.started() <= i < self.slots().len() ==> #[trigger] self.slots()[i] is Queued,
    {
        self.scheduler.lemma_inv();
        assert forall|i: int| 0 <= i < self.paths().len() implies slot_matches(
            #[trigger] self.slots()[i],
            self.answers()[i],
            self.paths()[i],
            self.caches().len(),
        ) by {
            assert(self.agrees(i));
        }
        assert forall|i: int|
            0 <= i < self.paths().len() && #[trigger] self.slots()[i] is Failed implies {
                &&& self.failure() is Some
                &&& failure_matches(self.failure()->Some_0, self.answers()[i], self.paths()[i])
            } by {
            assert(self.blames(i));
        }
    }

    /// Number of paths to check.
    pub fn total(&self) -> (total: usize)
        requires
            self.inv(),
        ensures
            total == self.paths().len(),
    {
        self.store_paths.len()
    }

    /// Number of paths that are being resolved; never more than the limit.
    pub fn paths_in_flight(&self) -> (in_flight: usize)
        requires
            self.inv(),
        ensures
            in_flight == self.in_flight(),
            in_flight <= self.limit(),
    {
        self.scheduler.in_flight()
    }

    /// Number of paths resolved or failed so far: the steps of progress.
    pub fn progress(&self) -> (completed: usize)
        requires
            self.inv(),
        ensures
            completed == self.completed(),
            completed <= self.paths().len(),
    {
        proof {
            self.lemma_inv();
        }
        self.scheduler.progress()
    }

    /// Whether the run is over.
    pub fn finished(&self) -> (finished: bool)
        requires
            self.inv(),
        ensures
            finished == self.is_finished(),
    {
        self.failure.is_some() || self.scheduler.is_complete()
    }

    /// Says what to do next, and starts the next path where one may start.
    ///
    /// A path starts if the run has not failed, a path is left and fewer than
    /// `limit` are in flight. A path that is no store path fails at that
    /// moment, and the run with it.
    pub fn next_action(&mut self) -> (action: Action)
        requires
            old(self).inv(),
        ensures
            final(self).inv(),
            final(self).caches() == old(self).caches(),
            final(self).paths() == old(self).paths(),
            final(self).limit() == old(self).limit(),
            old(self).failure() is Some ==> action is Abort && *final(self) == *old(self),
            old(self).failure() is None && !old(self).can_start() ==> *final(self) == *old(self)
                && if old(self).in_flight() > 0 {
                action is Wait
            } else {
                action is Finish && all_done(old(self).slots())
            },
            old(self).can_start() ==> {
                let path = old(self).started() as int;
                &&& final(self).started() == path + 1
                &&& final(self).answers() == old(self).answers()
                &&& if is_store_path(old(self).paths()[path]) {
                    &&& action matches Action::Probe { path: p, url }
                    &&& p == path
                    &&& url@ == narinfo_url_of(old(self).caches()[0], old(self).paths()[path])
                    &&& final(self).slots() == old(self).slots().update(path, Slot::Running(0))
                    &&& final(self).failure() is None
                    &&& final(self).in_flight() == old(self).in_flight() + 1
                    &&& final(self).completed() == old(self).completed()
                } else {
                    &&& action is Abort
                    &&& final(self).slots() == old(self).slots().update(path, Slot::Failed)
                    &&& final(self).failure() matches Some(Failure::InvalidStorePath(text))
                    &&& text@ == old(self).paths()[path]
                    &&& final(self).in_flight() == old(self).in_flight()
                    &&& final(self).completed() == old(self).completed() + 1
                }
            },
            final(self).in_flight() <= final(self).limit(),
    {
        proof {
            self.lemma_inv();
        }
        if self.failure.is_some() {
            return Action::Abort;
        }
        match self.scheduler.next_job() {
            Some(path) => {
                proof {
                    let slots = self.scheduler.slots();
                    lemma_count_update(slots, path as int, Slot::Running(0));
                    lemma_count_update(slots, path as int, Slot::Failed);
                    lemma_slot_replaced(slots, path as int, Slot::Running(0), path + 1);
                    lemma_slot_replaced(slots, path as int, Slot::Failed, path + 1);
                    assert(old(self).agrees(path as int));
                }
                if is_valid_store_path(self.store_paths[path].as_str()) {
                    let url = narinfo_url(
                        self.binary_caches[0].as_str(),
                        self.store_paths[path].as_str(),
                    );
                    self.scheduler.start(0);
                    proof {
                        assert forall|i: int|
                            0 <= i < self.store_paths.len() implies #[trigger] self.agrees(i)
                            && self.blames(i) by {
                            assert(old(self).agrees(i) && old(self).blames(i));
                        }
                        self.scheduler.lemma_inv();
                    }
                    Action::Probe { path, url }
                } else {
                    let text = String::from_str(self.store_paths[path].as_str());
                    self.scheduler.reject();
                    self.failure = Some(Failure::InvalidStorePath(text));
                    proof {
                        assert forall|i: int|
                            0 <= i < self.store_paths.len() implies #[trigger] self.agrees(i)
                            && self.blames(i) by {
                            assert(old(self).agrees(i) && old(self).blames(i));
                        }
                        self.scheduler.lemma_inv();
                    }
                    Action::Abort
                }
            },
            None => {
                if self.scheduler.in_flight() > 0 {
                    Action::Wait
                } else {
                    proof {
                        lemma_all_settled(self.scheduler.slots());
                    }
                    Action::Finish
                }
            },
        }
    }

    /// Records the answer of the cache that the path at position `path` is
    /// being probed at, and says what follows for that path.
    ///
    /// An answer for a path that is not being probed, or one that arrives
    /// after the run has failed, is dropped.
    pub fn record(&mut self, path: usize, result: ProbeResult) -> (outcome: Outcome)
        requires
            old(self).inv(),
        ensures
            final(self).inv(),
            final(self).caches() == old(self).caches(),
            final(self).paths() == old(self).paths(),
            final(self).limit() == old(self).limit(),
            final(self).started() == old(self).started(),
            !old(self).accepts(path as int) ==> outcome is Ignored && *final(self) == *old(self),
            old(self).accepts(path as int) ==> {
                let endpoint = old(self).slots()[path as int]->Running_0;
                &&& final(self).answers() == old(self).answers().update(
                    path as int,
                    old(self).answers()[path as int].push(result),
                )
                &&& match step_of(endpoint as int, old(self).caches().len() as int, result) {
                    Step::Ask(following) => {
                        &&& outcome matches Outcome::Probe { url }
                        &&& url@ == narinfo_url_of(
                            old(self).caches()[following as int],
                            old(self).paths()[path as int],
                        )
                        &&& final(self).slots() == old(self).slots().update(
                            path as int,
                            Slot::Running(following),
                        )
                        &&& final(self).failure() is None
                    },
                    Step::Resolved(available) => {
                        &&& outcome == Outcome::Resolved { available }
                        &&& final(self).slots() == old(self).slots().update(
                            path as int,
                            Slot::Done(available),
                        )
                        &&& final(self).failure() is None
                    },
                    Step::Failed(error) => {
                        &&& outcome is Failed
                        &&& final(self).slots() == old(self).slots().update(
                            path as int,
                            Slot::Failed,
                        )
                        &&& final(self).failure() == Some(error)
                    },
                }
            },
            result is Present && old(self).accepts(path as int) ==> outcome == (Outcome::Resolved {
                available: true,
            }),
            outcome is Probe ==> final(self).in_flight() == old(self).in_flight()
                && final(self).completed() == old(self).completed(),
            outcome is Resolved || outcome is Failed ==> final(self).in_flight() + 1 == old(
                self,
            ).in_flight() && final(self).completed() == old(self).completed() + 1,
            final(self).in_flight() <= final(self).limit(),
    {
        proof {
            self.lemma_inv();
        }
        if self.failure.is_some() {
            return Outcome::Ignored;
        }
        let endpoint = match self.scheduler.state(path) {
            Some(endpoint) => *endpoint,
            None => {
                return Outcome::Ignored;
            },
        };
        let ghost recorded = self.answers@[path as int].push(result);
        proof {
            let slots = self.scheduler.slots();
            let next = (endpoint + 1) as usize;
            let started = self.scheduler.started() as int;
            lemma_count_update(slots, path as int, Slot::Running(next));
            lemma_count_update(slots, path as int, Slot::Done(true));
            lemma_count_update(slots, path as int, Slot::Done(false));
            lemma_count_update(slots, path as int, Slot::Failed);
            lemma_slot_replaced(slots, path as int, Slot::Running(next), started);
            lemma_slot_replaced(slots, path as int, Slot::Done(true), started);
            lemma_slot_replaced(slots, path as int, Slot::Done(false), started);
            lemma_slot_replaced(slots, path as int, Slot::Failed, started);
            assert(old(self).agrees(path as int));
            assert forall|k: int|
                0 <= k < recorded.len() - 1 implies #[trigger] recorded[k] is Absent by {
                if k < recorded.len() - 2 {
                    assert(self.answers@[path as int][k] is Absent);
                }
            }
        }
        let outcome = match step(endpoint, self.binary_caches.len(), result) {
            Step::Ask(following) => {
                let url = narinfo_url(
                    self.binary_caches[following].as_str(),
                    self.store_paths[path].as_str(),
                );
                self.scheduler.advance(path, following);
                Outcome::Probe { url }
            },
            Step::Resolved(available) => {
                self.scheduler.complete(path, available);
                Outcome::Resolved { available }
            },
            Step::Failed(error) => {
                self.scheduler.fail(path);
                self.failure = Some(error);
                Outcome::Failed
            },
        };
        self.answers = Ghost(self.answers@.update(path as int, recorded));
        proof {
            assert forall|i: int| 0 <= i < self.store_paths.len() implies #[trigger] self.agrees(i)
                && self.blames(i) by {
                assert(old(self).agrees(i) && old(self).blames(i));
            }
            self.scheduler.lemma_inv();
        }
        outcome
    }

    /// Ends the run: whether each path is available, in the order of the
    /// paths, if every path was resolved, and the error if the run failed.
    pub fn into_availability(self) -> (available: Result<Vec<bool>, Failure>)
        requires
            self.inv(),
            self.is_finished(),
        ensures
            match self.failure() {
                Some(error) => available == Err::<Vec<bool>, Failure>(error),
                None => available matches Ok(found) && found@ == availability(self.slots()),
            },
    {
        match self.failure {
            Some(error) => Err(error),
            None => {
                let ghost slots = self.scheduler.slots();
                let available = self.scheduler.into_results();
                assert(available@ =~= availability(slots)) by {
                    assert forall|i: int| 0 <= i < slots.len() implies available@[i]
                        == availability(slots)[i] by {
                        assert(slots[i] is Done);
                    }
                }
                Ok(available)
            },
        }
    }

    /// Ends the run: the summary if every path was resolved, the error if
    /// the run failed.
    pub fn finish(self) -> (summary: Result<RunSummary, Failure>)
        requires
            self.inv(),
            self.is_finished(),
        ensures
            match self.failure() {
                Some(error) => summary == Err::<RunSummary, Failure>(error),
                None => {
                    &&& summary matches Ok(counts)
                    &&& counts.summarizes(self.paths(), availability(self.slots()))
                    &&& counts.total == self.paths().len()
                    &&& counts.cached + counts.uncached == counts.total
                    &&& counts.uncached_paths.len() == counts.uncached
                },
            },
    {
        match self.failure {
            Some(error) => Err(error),
            None => {
                let ghost slots = self.scheduler.slots();
                let available = self.scheduler.into_results();
                assert(available@ =~= availability(slots)) by {
                    assert forall|i: int| 0 <= i < slots.len() implies available@[i]
                        == availability(slots)[i] by {
                        assert(slots[i] is Done);
                    }
                }
                Ok(RunSummary::new(&self.store_paths, &available))
            },
        }
    }

    /// The answers recorded for each path are the first ones of its row in
    /// `table`, which holds what every cache would answer for every path.
    pub open spec fn consistent_with(&self, table: Seq<Seq<ProbeResult>>) -> bool {
        &&& table.len() == self.paths().len()
        &&& forall|i: int|
            0 <= i < table.len() ==> (#[trigger] table[i]).len() == self.caches().len()
        &&& forall|i: int, k: int|
            0 <= i < table.len() && 0 <= k < self.answers()[i].len()
                ==> #[trigger] self.answers()[i][k] == table[i][k]
    }

    /// Short circuit: the caches of a path are asked in order, and none is
    /// asked after one that had the path or failed to answer. Every recorded
    /// answer but the last is `Absent`.
    pub proof fn lemma_asks_no_further(&self, path: int, k: int)
        requires
            self.inv(),
            0 <= path < self.paths().len(),
            0 <= k < self.answers()[path].len() - 1,
        ensures
            self.answers()[path][k] is Absent,
            self.answers()[path].len() <= self.caches().len(),
    {
        self.lemma_inv();
        assert(slot_matches(
            self.slots()[path],
            self.answers()[path],
            self.paths()[path],
            self.caches().len(),
        ));
    }

    /// A resolved path counts as available exactly if a cache answered that
    /// it has the path; it counts as missing exactly if every cache answered
    /// that it has not.
    pub proof fn lemma_available_iff_present(&self, path: int)
        requires
            self.inv(),
            0 <= path < self.paths().len(),
            self.slots()[path] is Done,
        ensures
            availability(self.slots())[path] <==> exists|k: int|
                0 <= k < self.answers()[path].len()
                    && #[trigger] self.answers()[path][k] is Present,
            !availability(self.slots())[path] <==> self.answers()[path].len()
                == self.caches().len() && forall|k: int|
                0 <= k < self.answers()[path].len()
                    ==> #[trigger] self.answers()[path][k] is Absent,
    {
        self.lemma_inv();
        let answers = self.answers()[path];
        assert(slot_matches(self.slots()[path], answers, self.paths()[path], self.caches().len()));
        if self.slots()[path] == Slot::<usize, bool>::Done(true) {
            assert(answers[answers.len() - 1] is Present);
        } else {
            assert forall|k: int|
                0 <= k < answers.len() implies #[trigger] answers[k] is Absent by {
                if k < answers.len() - 1 {
                } else {
                    assert(answers.last() is Absent);
                }
            }
        }
    }

    /// The state of a path is what resolving it against the caches gives:
    /// where the recorded answers are those of `table`, a path is resolved
    /// as `resolve` says of its row, and the error of a failed store path is
    /// the one that `resolve` gives. The caches that were asked for a path
    /// are those up to the one that decides, and no other.
    pub proof fn lemma_agrees_with_caches(&self, table: Seq<Seq<ProbeResult>>, path: int)
        requires
            self.inv(),
            self.consistent_with(table),
            0 <= path < self.paths().len(),
        ensures
            self.slots()[path] matches Slot::Done(available) ==> resolve(table[path]) == Ok::<
                bool,
                Failure,
            >(available),
            self.slots()[path] is Failed && is_store_path(self.paths()[path]) ==> ({
                &&& self.failure() matches Some(error)
                &&& resolve(table[path]) == Err::<bool, Failure>(error)
            }),
            self.slots()[path] is Done || (self.slots()[path] is Failed && is_store_path(
                self.paths()[path],
            )) ==> self.answers()[path].len() == probes_needed(table[path]),
    {
        self.lemma_inv();
        let answers = self.answers()[path];
        let row = table[path];
        let asked = answers.len() as int;
        assert(slot_matches(self.slots()[path], answers, self.paths()[path], self.caches().len()));
        assert(row.len() == self.caches().len());
        assert forall|k: int| 0 <= k < asked - 1 implies #[trigger] row[k] is Absent by {
            assert(answers[k] is Absent);
            assert(answers[k] == row[k]);
        }
        if asked > 0 {
            assert(answers[asked - 1] == row[asked - 1]);
        }
        match self.slots()[path] {
            Slot::Done(available) => {
                if available {
                    lemma_decisive_unique(row, asked - 1);
                } else {
                    lemma_decisive_unique(row, asked);
                }
            },
            Slot::Failed => {
                if is_store_path(self.paths()[path]) {
                    lemma_decisive_unique(row, asked - 1);
                }
            },
            _ => {},
        }
    }
}

/// Partition: after a run that resolved every path, a path is among the
/// missing ones of the summary exactly if no cache has it. This needs that
/// the caches answer the same for a path that is given twice.
pub proof fn lemma_missing_iff_in_no_cache(
    check: Check,
    table: Seq<Seq<ProbeResult>>,
    summary: RunSummary,
    path: int,
)
    requires
        check.inv(),
        check.consistent_with(table),
        all_done(check.slots()),
        summary.summarizes(check.paths(), availability(check.slots())),
        0 <= path < check.paths().len(),
        forall|i: int, j: int|
            0 <= i < table.len() && 0 <= j < table.len() && check.paths()[i] == check.paths()[j]
                ==> table[i] == table[j],
    ensures
        resolve(table[path]) == Ok::<bool, Failure>(true)
            <==> !summary.uncached_paths.deep_view().contains(check.paths()[path]),
        resolve(table[path]) == Ok::<bool, Failure>(false)
            <==> summary.uncached_paths.deep_view().contains(check.paths()[path]),
{
    check.lemma_inv();
    let available = availability(check.slots());
    assert forall|i: int| 0 <= i < check.paths().len() implies resolve(table[i]) == Ok::<
        bool,
        Failure,
    >(#[trigger] available[i]) by {
        check.lemma_agrees_with_caches(table, i);
        assert(check.slots()[i] is Done);
    }
    lemma_partition(check.paths(), available, path);
}

/// Progress: once every path is resolved, there has been one step of
/// progress for each path, and nothing is in flight.
pub proof fn lemma_progress_complete(check: Check)
    requires
        check.inv(),
        all_done(check.slots()),
    ensures
        check.completed() == check.paths().len(),
        check.in_flight() == 0,
        check.failure() is None,
{
    check.lemma_inv();
    lemma_count_done(check.slots());
    if check.failure() is Some {
        let i = choose|i: int|
            0 <= i < check.slots().len() && #[trigger] check.slots()[i] is Failed;
        assert(check.slots()[i] is Done);
    }
}

/// Idempotence: two runs over the same paths against caches that answer the
/// same give the same summary, whatever the order in which the answers
/// arrived and whatever the limit of each run.
pub proof fn lemma_rerun_identical(
    first: Check,
    second: Check,
    table: Seq<Seq<ProbeResult>>,
    one: RunSummary,
    other: RunSummary,
)
    requires
        first.inv(),
        second.inv(),
        first.paths() == second.paths(),
        first.consistent_with(table),
        second.consistent_with(table),
        all_done(first.slots()),
        all_done(second.slots()),
        one.summarizes(first.paths(), availability(first.slots())),
        other.summarizes(second.paths(), availability(second.slots())),
    ensures
        availability(first.slots()) == availability(second.slots()),
        one.total == other.total,
        one.cached == other.cached,
        one.uncached == other.uncached,
        one.uncached_paths.deep_view() == other.uncached_paths.deep_view(),
{
    first.lemma_inv();
    second.lemma_inv();
    assert(availability(first.slots()) =~= availability(second.slots())) by {
        assert forall|i: int| 0 <= i < first.paths().len() implies availability(first.slots())[i]
            == availability(second.slots())[i] by {
            first.lemma_agrees_with_caches(table, i);
            second.lemma_agrees_with_caches(table, i);
            assert(first.slots()[i] is Done);
            assert(second.slots()[i] is Done);
        }
    }
}

/// Starts a run that checks `store_paths` against `binary_caches`, with at
/// most `limit` paths in flight. Without a cache there is nothing to check
/// against, and no run.
pub fn check_store_paths(
    binary_caches: Vec<String>,
    store_paths: Vec<String>,
    limit: usize,
) -> (check: Result<Check, Failure>)
    requires
        limit >= 1,
    ensures
        binary_caches.len() == 0 <==> check is Err,
        check matches Err(error) ==> error == Failure::NoBinaryCaches,
        check matches Ok(run) ==> {
            &&& run.inv()
            &&& run.caches() == binary_caches.deep_view()
            &&& run.paths() == store_paths.deep_view()
            &&& run.limit() == limit
            &&& run.started() == 0
            &&& run.failure() is None
            &&& run.slots() == Seq::new(
                store_paths.len() as nat,
                |i: int| Slot::<usize, bool>::Queued,
            )
            &&& run.answers() == Seq::new(
                store_paths.len() as nat,
                |i: int| Seq::<ProbeResult>::empty(),
            )
        },
{
    if binary_caches.len() == 0 {
        return Err(Failure::NoBinaryCaches);
    }
    let scheduler: Scheduler<usize, bool> = Scheduler::new(store_paths.len(), limit);
    let ghost answers = Seq::new(store_paths.len() as nat, |i: int| Seq::<ProbeResult>::empty());
    let check = Check {
        binary_caches,
        store_paths,
        scheduler,
        failure: None,
        answers: Ghost(answers),
    };
    proof {
        assert(!any_failed(check.scheduler.slots()));
        assert forall|i: int| 0 <= i < check.store_paths.len() implies #[trigger] check.agrees(i)
            && check.blames(i) by {}
    }
    Ok(check)
}

} // verus!
