//! Whether one store path is in any of the caches, from their answers in
//! the order in which the caches were given.
//!
//! The caches are asked one after the other. The first answer other than
//! "absent" decides: a hit makes the path available, an error ends the
//! resolution with that error. No cache is asked after the one that decided.

use vstd::prelude::*;
use crate::failure::Failure;
use crate::probe::ProbeResult;

verus! {

/// Position of the first answer from `from` on that is not `Absent`; the
/// number of answers if there is none.
pub open spec fn decisive_from(answers: Seq<ProbeResult>, from: int) -> int
    decreases answers.len() - from,
{
    if from < 0 || from >= answers.len() {
        answers.len() as int
    } else if answers[from] is Absent {
        decisive_from(answers, from + 1)
    } else {
        from
    }
}

/// Position of the answer that decides; the number of answers if every
/// cache said `Absent`.
pub open spec fn decisive(answers: Seq<ProbeResult>) -> int {
    decisive_from(answers, 0)
}

/// How many caches are asked: those up to the one that decides.
pub open spec fn probes_needed(answers: Seq<ProbeResult>) -> int {
    if decisive(answers) < answers.len() {
        decisive(answers) + 1
    } else {
        answers.len() as int
    }
}

/// Availability of a path, given what each cache answers for it.
pub open spec fn resolve(answers: Seq<ProbeResult>) -> Result<bool, Failure> {
    if decisive(answers) < answers.len() {
        match answers[decisive(answers)] {
            ProbeResult::Failed(error) => Err(error),
            _ => Ok(true),
        }
    } else {
        Ok(false)
    }
}

/// What follows from the answer of one cache.
pub enum Step {
    /// The cache does not have the path: ask the cache at this position.
    Ask(usize),
    /// The path is available or, after the last cache, it is not.
    Resolved(bool),
    /// The cache failed to answer.
    Failed(Failure),
}

/// What follows from `answer`, given by the cache at position `endpoint` of
/// `endpoints` caches.
pub open spec fn step_of(endpoint: int, endpoints: int, answer: ProbeResult) -> Step {
    match answer {
        ProbeResult::Present => Step::Resolved(true),
        ProbeResult::Absent => if endpoint + 1 < endpoints {
            Step::Ask((endpoint + 1) as usize)
        } else {
            Step::Resolved(false)
        },
        ProbeResult::Failed(error) => Step::Failed(error),
    }
}

/// Every answer before the decisive one is `Absent`, the decisive one is not.
pub proof fn lemma_decisive_from(answers: Seq<ProbeResult>, from: int)
    requires
        0 <= from <= answers.len(),
    ensures
        from <= decisive_from(answers, from) <= answers.len(),
        forall|k: int| from <= k < decisive_from(answers, from) ==> #[trigger] answers[k] is Absent,
        decisive_from(answers, from) < answers.len() ==> !(answers[decisive_from(
            answers,
            from,
        )] is Absent),
    decreases answers.len() - from,
{
    if from < answers.len() && answers[from] is Absent {
        lemma_decisive_from(answers, from + 1);
    }
}

/// The decisive position is the only one that holds the first answer other
/// than `Absent`.
pub proof fn lemma_decisive_unique(answers: Seq<ProbeResult>, position: int)
    requires
        0 <= position <= answers.len(),
        forall|k: int| 0 <= k < position ==> #[trigger] answers[k] is Absent,
        position < answers.len() ==> !(answers[position] is Absent),
    ensures
        decisive(answers) == position,
{
    lemma_decisive_from(answers, 0);
    let found = decisive(answers);
    if found < position {
        assert(answers[found] is Absent);
    } else if position < found {
        assert(answers[position] is Absent);
    }
}

/// Short circuit: the result depends on the answers up to the decisive one
/// alone. Whatever the caches behind it would say, they are not asked.
pub proof fn lemma_short_circuit(answers: Seq<ProbeResult>, others: Seq<ProbeResult>)
    requires
        answers.len() == others.len(),
        forall|k: int| 0 <= k < probes_needed(answers) ==> answers[k] == others[k],
    ensures
        resolve(others) == resolve(answers),
        probes_needed(others) == probes_needed(answers),
{
    lemma_decisive_from(answers, 0);
    let position = decisive(answers);
    assert forall|k: int| 0 <= k < position implies #[trigger] others[k] is Absent by {
        assert(answers[k] is Absent);
    }
    lemma_decisive_unique(others, position);
}

/// Union: a path is available if and only if some cache has it and no cache
/// in front of that one fails to answer.
pub proof fn lemma_resolve_union(answers: Seq<ProbeResult>)
    ensures
        resolve(answers) == Ok::<bool, Failure>(true) <==> exists|k: int|
            0 <= k < answers.len() && #[trigger] answers[k] is Present && forall|j: int|
                0 <= j < k ==> !(#[trigger] answers[j] is Failed),
        resolve(answers) == Ok::<bool, Failure>(false) <==> forall|k: int|
            0 <= k < answers.len() ==> #[trigger] answers[k] is Absent,
{
    lemma_decisive_from(answers, 0);
    let position = decisive(answers);
    if resolve(answers) == Ok::<bool, Failure>(true) {
        assert(answers[position] is Present);
        assert forall|j: int| 0 <= j < position implies !(#[trigger] answers[j] is Failed) by {
            assert(answers[j] is Absent);
        }
    }
    if exists|k: int|
        0 <= k < answers.len() && #[trigger] answers[k] is Present && forall|j: int|
            0 <= j < k ==> !(#[trigger] answers[j] is Failed) {
        let k = choose|k: int|
            0 <= k < answers.len() && #[trigger] answers[k] is Present && forall|j: int|
                0 <= j < k ==> !(#[trigger] answers[j] is Failed);
        if position < k {
            assert(!(answers[position] is Failed));
        } else if k < position {
            assert(answers[k] is Absent);
        }
    }
    if resolve(answers) == Ok::<bool, Failure>(false) {
        assert(position == answers.len());
    }
    if forall|k: int| 0 <= k < answers.len() ==> #[trigger] answers[k] is Absent {
        if position < answers.len() {
            assert(answers[position] is Absent);
        }
    }
}

/// What follows from the answer of the cache at position `endpoint`.
pub fn step(endpoint: usize, endpoints: usize, answer: ProbeResult) -> (next: Step)
    requires
        endpoint < endpoints,
    ensures
        next == step_of(endpoint as int, endpoints as int, answer),
{
    match answer {
        ProbeResult::Present => Step::Resolved(true),
        ProbeResult::Absent => if endpoint + 1 < endpoints {
            Step::Ask(endpoint + 1)
        } else {
            Step::Resolved(false)
        },
        ProbeResult::Failed(error) => Step::Failed(error),
    }
}

/// Availability of a path from the answers of all caches, taken in order
/// and no further than the one that decides.
pub fn resolve_answers(answers: Vec<ProbeResult>) -> (found: Result<bool, Failure>)
    ensures
        found == resolve(answers@),
{
    let ghost all = answers@;
    let endpoints = answers.len();
    let mut endpoint: usize = 0;
    for answer in it: answers
        invariant
            it.seq() == all,
            endpoints == all.len(),
            endpoint == it.index(),
            forall|k: int| 0 <= k < it.index() ==> #[trigger] all[k] is Absent,
    {
        let ghost position = it.index() as int;
        match step(endpoint, endpoints, answer) {
            Step::Ask(following) => {
                endpoint = following;
            },
            Step::Resolved(available) => {
                proof {
                    if available {
                        lemma_decisive_unique(all, position);
                    } else {
                        lemma_decisive_unique(all, all.len() as int);
                    }
                }
                return Ok(available);
            },
            Step::Failed(error) => {
                proof {
                    lemma_decisive_unique(all, position);
                }
                return Err(error);
            },
        }
    }
    proof {
        lemma_decisive_unique(all, all.len() as int);
    }
    Ok(false)
}

} // verus!
