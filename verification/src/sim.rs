//! The trial driver: fan out independent trials, collect their death ages,
//! and reduce them to summary statistics.
//!
//! Trials share nothing but the read-only configuration; each worker owns
//! its own random stream and trial state, and the results are merged at the
//! join barrier, so the outcome does not depend on the degree of
//! parallelism or on scheduling order.

use crate::config::SimulationConfig;
use crate::life::simulate_one_life;
use crate::life::trial_outcome;
use crate::life::AGE_START_UNITS;
use crate::life::AGE_UNITS_CAP;
use crate::stats::aggregate;
use crate::stats::stats_match;
use crate::stats::stats_of;
use crate::stats::AggregateStatistics;
use crate::stats::SimError;
use crate::stats::MAX_SAMPLES;
use rayon::iter::IntoParallelIterator;
use rayon::iter::ParallelIterator;
use vstd::prelude::*;
use vstd::seq_lib::group_to_multiset_ensures;

verus! {

/// Run `n` independent trials one after the other and collect each trial's
/// death age.
pub fn run_trials(c: &SimulationConfig, n: usize) -> (r: Vec<u64>)
    ensures
        r@.len() == n,
        forall|i: int| 0 <= i < n ==> trial_outcome(*c, #[trigger] r@[i]),
{
    let mut out: Vec<u64> = Vec::new();
    let mut i: usize = 0;
    while i < n
        invariant
            i <= n,
            out@.len() == i,
            forall|j: int| 0 <= j < i ==> trial_outcome(*c, #[trigger] out@[j]),
        decreases n - i,
    {
        let age = simulate_one_life(c);
        out.push(age);
        i = i + 1;
    }
    out
}

/// Relies on rayon's `into_par_iter`, `map` and `collect` over `0..n`: the
/// collected vector holds exactly the `n` closure results.  The closure
/// only calls the verified `simulate_one_life`, so every element satisfies
/// that function's postcondition.
#[verifier::external_body]
pub fn run_trials_parallel(c: &SimulationConfig, n: usize) -> (r: Vec<u64>)
    ensures
        r@.len() == n,
        forall|i: int| 0 <= i < n ==> trial_outcome(*c, #[trigger] r@[i]),
{
    let cfg = *c;
    (0..n).into_par_iter().map(|_| simulate_one_life(&cfg)).collect()
}

/// Run the requested number of independent trials in parallel and reduce
/// the collected death ages to their exact summary statistics.  Zero
/// iterations yield the explicit empty-result-set failure; otherwise the
/// statistics are those of `iterations` trial outcomes, and neither the
/// minimum nor the median can fall below the age at which aging begins.
pub fn run_simulation(c: &SimulationConfig, iterations: usize) -> (r: Result<
    AggregateStatistics,
    SimError,
>)
    requires
        iterations <= MAX_SAMPLES,
    ensures
        match r {
            Ok(s) => {
                &&& iterations > 0
                &&& s.count == iterations
                &&& s.min >= AGE_START_UNITS
                &&& s.median_times_two as int >= 2 * (AGE_START_UNITS as int)
                &&& exists|ages: Seq<u64>|
                    {
                        &&& ages.len() == iterations
                        &&& forall|i: int|
                            0 <= i < ages.len() ==> trial_outcome(*c, #[trigger] ages[i])
                        &&& #[trigger] stats_of(s, ages)
                    }
            },
            Err(e) => iterations == 0 && e == SimError::EmptyResultSet,
        },
{
    let ages = run_trials_parallel(c, iterations);
    proof {
        assert forall|i: int| 0 <= i < ages@.len() implies #[trigger] ages@[i]
            <= AGE_UNITS_CAP by {
            assert(trial_outcome(*c, ages@[i]));
        }
    }
    let result = aggregate(&ages);
    match result {
        Ok(s) => {
            proof {
                broadcast use group_to_multiset_ensures;

                let t = choose|t: Seq<u64>|
                    #[trigger] stats_match(s, t) && t.to_multiset() == ages@.to_multiset();
                assert(t.contains(t[0]));
                assert(ages@.to_multiset().count(t[0]) > 0);
                assert(ages@.contains(t[0]));
                let w = choose|w: int| 0 <= w < ages@.len() && ages@[w] == t[0];
                assert(trial_outcome(*c, ages@[w]));
                assert(s.min >= AGE_START_UNITS);
                let n = t.len() as int;
                assert(t[n / 2] >= t[0]);
                if n % 2 != 1 {
                    assert(t[n / 2 - 1] >= t[0]);
                }
                assert(s.median_times_two as int >= 2 * (AGE_START_UNITS as int));
                assert(stats_of(s, ages@));
            }
            Ok(s)
        },
        Err(e) => Err(e),
    }
}

} // verus!
