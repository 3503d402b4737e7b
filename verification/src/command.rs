//! How many installables are evaluated at once.

use vstd::prelude::*;
use crate::scheduler::{Scheduler, Slot};

verus! {

/// `num_cpus::get`: the number of CPUs that this process may use. Nothing is
/// claimed of the number.
#[verifier::external_body]
fn available_cpus() -> (cpus: usize) {
    num_cpus::get()
}

/// The jobs that evaluate `total` installables on a machine with `cpus`
/// CPUs: one job at a time for each CPU, and one at a time where no CPU is
/// reported.
pub fn installable_jobs(total: usize, cpus: usize) -> (jobs: Scheduler<(), String>)
    ensures
        jobs.inv(),
        jobs.limit() == if cpus == 0 {
            1
        } else {
            cpus
        },
        jobs.started() == 0,
        jobs.slots() == Seq::new(total as nat, |i: int| Slot::<(), String>::Queued),
{
    let limit = if cpus == 0 {
        1
    } else {
        cpus
    };
    Scheduler::new(total, limit)
}

/// The jobs that evaluate `installables`, as many at a time as this machine
/// has CPUs. Each job is to find the store path of the installable at its
/// position.
pub fn resolve_installables(installables: &Vec<String>) -> (jobs: Scheduler<(), String>)
    ensures
        jobs.inv(),
        jobs.limit() >= 1,
        jobs.started() == 0,
        jobs.slots() == Seq::new(installables.len() as nat, |i: int| Slot::<(), String>::Queued),
{
    installable_jobs(installables.len(), available_cpus())
}

} // verus!
