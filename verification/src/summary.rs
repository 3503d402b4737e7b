//! The outcome of a run in numbers, and the paths that no cache has.

use vstd::prelude::*;
use crate::text::{hundredths, hundredths_string};

verus! {

/// How many of the paths some cache has.
pub open spec fn count_available(available: Seq<bool>) -> nat
    decreases available.len(),
{
    if available.len() == 0 {
        0
    } else {
        count_available(available.drop_last()) + if available.last() {
            1nat
        } else {
            0nat
        }
    }
}

/// The positions of the paths that no cache has, in rising order.
pub open spec fn missing_indices(available: Seq<bool>) -> Seq<int>
    decreases available.len(),
{
    if available.len() == 0 {
        Seq::empty()
    } else if available.last() {
        missing_indices(available.drop_last())
    } else {
        missing_indices(available.drop_last()).push(available.len() - 1)
    }
}

/// The paths that no cache has, in the order of `paths`.
pub open spec fn missing<A>(paths: Seq<A>, available: Seq<bool>) -> Seq<A> {
    Seq::new(missing_indices(available).len(), |k: int| paths[missing_indices(available)[k]])
}

/// The share of `cached` in `total` in hundredths of a percent, rounded to
/// the nearest, a tie upwards. There is none of nothing.
pub open spec fn percentage_of(cached: nat, total: nat) -> Option<nat> {
    if total == 0 {
        None
    } else {
        Some((cached * 10000 + total / 2) / total)
    }
}

/// Every position in `missing_indices` is one of an unavailable path, every
/// such position is in it, and the positions rise. Available and missing
/// paths add up to all.
pub proof fn lemma_missing_indices(available: Seq<bool>)
    ensures
        count_available(available) + missing_indices(available).len() == available.len(),
        forall|k: int|
            0 <= k < missing_indices(available).len() ==> 0 <= (#[trigger] missing_indices(
                available,
            )[k]) < available.len() && !available[missing_indices(available)[k]],
        forall|j: int, k: int|
            0 <= j < k < missing_indices(available).len() ==> missing_indices(available)[j]
                < missing_indices(available)[k],
        forall|i: int|
            0 <= i < available.len() && !available[i] ==> missing_indices(available).contains(i),
    decreases available.len(),
{
    if available.len() > 0 {
        let front = available.drop_last();
        lemma_missing_indices(front);
        let indices = missing_indices(available);
        assert forall|i: int| 0 <= i < available.len() && !available[i] implies indices.contains(
            i,
        ) by {
            if i < front.len() {
                assert(!front[i]);
                let k = choose|k: int|
                    0 <= k < missing_indices(front).len() && missing_indices(front)[k] == i;
                assert(indices[k] == i);
            } else {
                assert(indices[indices.len() - 1] == i);
            }
        }
    }
}

/// Every path is accounted for once: the available and the missing paths
/// add up to all of them.
pub proof fn lemma_counts_add_up<A>(paths: Seq<A>, available: Seq<bool>)
    requires
        paths.len() == available.len(),
    ensures
        count_available(available) + missing(paths, available).len() == paths.len(),
{
    lemma_missing_indices(available);
}

/// Partition: a path that some cache has is not among the missing ones, and
/// a path that no cache has is. This needs that a path that is given twice
/// is found, or missed, both times.
pub proof fn lemma_partition<A>(paths: Seq<A>, available: Seq<bool>, i: int)
    requires
        paths.len() == available.len(),
        0 <= i < paths.len(),
        forall|j: int, k: int|
            0 <= j < paths.len() && 0 <= k < paths.len() && paths[j] == paths[k] ==> available[j]
                == available[k],
    ensures
        available[i] <==> !missing(paths, available).contains(paths[i]),
{
    lemma_missing_indices(available);
    let indices = missing_indices(available);
    let listed = missing(paths, available);
    if listed.contains(paths[i]) {
        let k = choose|k: int| 0 <= k < listed.len() && listed[k] == paths[i];
        assert(!available[indices[k]]);
        assert(paths[indices[k]] == paths[i]);
    }
    if !available[i] {
        let k = choose|k: int| 0 <= k < indices.len() && indices[k] == i;
        assert(listed[k] == paths[i]);
    }
}

/// Order: the missing paths stand in the order in which they were given.
/// Each is the path at a position of its own, and these positions rise.
pub proof fn lemma_order_preserved<A>(paths: Seq<A>, available: Seq<bool>, j: int, k: int)
    requires
        paths.len() == available.len(),
        0 <= j < k < missing(paths, available).len(),
    ensures
        0 <= missing_indices(available)[j] < missing_indices(available)[k] < paths.len(),
        missing(paths, available)[j] == paths[missing_indices(available)[j]],
        missing(paths, available)[k] == paths[missing_indices(available)[k]],
{
    lemma_missing_indices(available);
}

/// Nothing available and nothing missing where no path was given.
pub proof fn lemma_nothing_of_nothing<A>(paths: Seq<A>, available: Seq<bool>)
    requires
        paths.len() == 0,
        available.len() == 0,
    ensures
        count_available(available) == 0,
        missing(paths, available).len() == 0,
        percentage_of(0, 0) is None,
{
}

/// Total, cached and uncached counts of a run and the paths that are missing.
#[derive(Clone, Debug, PartialEq, Eq)]
pub struct RunSummary {
    /// Number of paths checked.
    pub total: usize,
    /// Number of paths that some cache has.
    pub cached: usize,
    /// Number of paths that no cache has.
    pub uncached: usize,
    /// The paths that no cache has, in the order in which they were given.
    pub uncached_paths: Vec<String>,
}

impl RunSummary {
    /// The counts add up and there is one missing path for each count of it.
    pub open spec fn wf(&self) -> bool {
        &&& self.cached + self.uncached == self.total
        &&& self.uncached_paths.len() == self.uncached
    }

    /// The summary of checking `paths` with the availability found for each.
    pub open spec fn summarizes(&self, paths: Seq<Seq<char>>, available: Seq<bool>) -> bool {
        &&& self.total == paths.len()
        &&& self.cached == count_available(available)
        &&& self.uncached == missing_indices(available).len()
        &&& self.uncached_paths.deep_view() == missing(paths, available)
    }

    /// Tallies the availability of each path and lists the missing ones.
    pub fn new(store_paths: &Vec<String>, available: &Vec<bool>) -> (summary: RunSummary)
        requires
            store_paths.len() == available.len(),
        ensures
            summary.summarizes(store_paths.deep_view(), available@),
            summary.wf(),
            summary.total == store_paths.len(),
            summary.cached + summary.uncached == summary.total,
    {
        let total = store_paths.len();
        let mut cached: usize = 0;
        let mut uncached_paths: Vec<String> = Vec::new();
        let mut i: usize = 0;
        while i < total
            invariant
                i <= total == store_paths.len() == available.len(),
                cached == count_available(available@.take(i as int)),
                uncached_paths.len() == missing_indices(available@.take(i as int)).len(),
                cached + uncached_paths.len() == i,
                uncached_paths.deep_view() == missing(
                    store_paths.deep_view(),
                    available@.take(i as int),
                ),
            decreases total - i,
        {
            let ghost before = available@.take(i as int);
            let ghost after = available@.take(i + 1);
            assert(after.drop_last() =~= before);
            assert(after.last() == available@[i as int]);
            if available[i] {
                cached += 1;
            } else {
                let ghost listed = uncached_paths.deep_view();
                uncached_paths.push(store_paths[i].clone());
                assert(uncached_paths.deep_view() =~= listed.push(store_paths[i as int]@));
                assert(uncached_paths.deep_view() =~= missing(store_paths.deep_view(), after));
            }
            i += 1;
        }
        assert(available@.take(total as int) =~= available@);
        RunSummary { total, cached, uncached: uncached_paths.len(), uncached_paths }
    }

    /// The share of cached paths in hundredths of a percent, or nothing where
    /// no path was checked.
    pub fn percentage(&self) -> (share: Option<u64>)
        requires
            self.cached <= self.total,
        ensures
            share matches Some(p) ==> percentage_of(self.cached as nat, self.total as nat) == Some(
                p as nat,
            ) && p <= 10000,
            share is None <==> self.total == 0,
    {
        if self.total == 0 {
            None
        } else {
            let total = self.total as u128;
            let cached = self.cached as u128;
            let share = (cached * 10000 + total / 2) / total;
            assert(share <= 10000) by (nonlinear_arith)
                requires
                    share == (cached * 10000 + total / 2) / (total as int),
                    cached <= total,
                    total > 0,
            ;
            Some(share as u64)
        }
    }

    /// The share of cached paths as a percentage with two decimal places, such
    /// as `99.50`, or nothing where no path was checked.
    pub fn percentage_text(&self) -> (text: Option<String>)
        requires
            self.cached <= self.total,
        ensures
            text is None <==> self.total == 0,
            text matches Some(t) ==> percentage_of(self.cached as nat, self.total as nat)
                matches Some(p) && t@ == hundredths(p),
    {
        match self.percentage() {
            Some(share) => Some(hundredths_string(share)),
            None => None,
        }
    }
}

} // verus!
