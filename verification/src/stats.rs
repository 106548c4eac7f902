//! The aggregator: exact summary statistics of the collected death ages.
//!
//! Ages are integer unit counts, so every statistic is kept exact: the
//! median doubled (the even-count median is the average of the two central
//! values, held as their sum), the mean as the pair of sum and count, and
//! the population variance as the rational `variance_num / count²` with
//! `variance_num = count·Σx² − (Σx)²`.  A caller that wants real-valued
//! output divides — and takes the square root for the standard deviation —
//! itself.

use crate::life::AGE_UNITS_CAP;
use rayon::slice::ParallelSliceMut;
use vstd::arithmetic::mul::lemma_mul_upper_bound;
use vstd::prelude::*;
use vstd::seq_lib::group_to_multiset_ensures;

verus! {

/// Most samples one aggregation accepts; keeps every sum inside `u128`.
pub const MAX_SAMPLES: u64 = 4294967295;

/// `AGE_UNITS_CAP` squared: the largest one squared sample can be.
pub const AGE_UNITS_CAP_SQ: u128 = 18446744065119617025;

/// The one failure aggregation knows: a run of zero trials has no
/// statistics — no minimum, no median, and a division by zero for the mean.
#[derive(Clone, Copy, Debug, PartialEq, Eq, Structural)]
pub enum SimError {
    EmptyResultSet,
}

/// Exact summary statistics of a non-empty set of death ages, all in age
/// units.
#[derive(Clone, Copy, Debug, PartialEq, Eq, Structural)]
pub struct AggregateStatistics {
    /// Number of ages aggregated.
    pub count: usize,
    /// Smallest age.
    pub min: u64,
    /// Largest age.
    pub max: u64,
    /// Twice the median: for an odd count, twice the central value of the
    /// sorted ages; for an even count, the sum of the two central values,
    /// so that the median is their average.
    pub median_times_two: u64,
    /// Sum of all ages; the mean is `sum / count`.
    pub sum: u64,
    /// `count·Σx² − (Σx)²`: the population variance is
    /// `variance_num / count²`, and the standard deviation its square root.
    pub variance_num: u128,
}

/// Ascending order.
pub open spec fn sorted(s: Seq<u64>) -> bool {
    forall|i: int, j: int| 0 <= i < j < s.len() ==> s[i] <= s[j]
}

/// Sum of the values.
pub open spec fn sum_of(s: Seq<u64>) -> int
    decreases s.len(),
{
    if s.len() == 0 {
        0
    } else {
        sum_of(s.drop_last()) + s.last()
    }
}

/// Sum of the squared values.
pub open spec fn sum_sq_of(s: Seq<u64>) -> int
    decreases s.len(),
{
    if s.len() == 0 {
        0
    } else {
        sum_sq_of(s.drop_last()) + s.last() * s.last()
    }
}

/// Twice the median of a sorted, non-empty sequence.
pub open spec fn median_times_two_spec(s: Seq<u64>) -> int
    recommends
        s.len() > 0,
        sorted(s),
{
    let n = s.len() as int;
    if n % 2 == 1 {
        2 * s[n / 2]
    } else {
        s[n / 2 - 1] + s[n / 2]
    }
}

/// `s` holds the statistics of the sorted sequence `t`.
pub open spec fn stats_match(s: AggregateStatistics, t: Seq<u64>) -> bool {
    &&& t.len() > 0
    &&& sorted(t)
    &&& s.count == t.len()
    &&& s.min == t[0]
    &&& s.max == t[t.len() - 1]
    &&& s.median_times_two as int == median_times_two_spec(t)
    &&& s.sum as int == sum_of(t)
    &&& s.variance_num as int == t.len() * sum_sq_of(t) - sum_of(t) * sum_of(t)
}

/// `s` holds the statistics of `ages`: of the (unique) ascending
/// rearrangement of `ages`.
pub open spec fn stats_of(s: AggregateStatistics, ages: Seq<u64>) -> bool {
    exists|t: Seq<u64>| #[trigger] stats_match(s, t) && t.to_multiset() == ages.to_multiset()
}

/// Both sums are sums of non-negative values.
pub proof fn lemma_sums_nonneg(s: Seq<u64>)
    ensures
        sum_of(s) >= 0,
        sum_sq_of(s) >= 0,
    decreases s.len(),
{
    if s.len() > 0 {
        lemma_sums_nonneg(s.drop_last());
        let x = s.last() as int;
        assert(x * x >= 0) by (nonlinear_arith)
            requires
                x >= 0,
        ;
    }
}

/// `Σ(x_i − x)² >= 0`, expanded: the square sum dominates `2·x·Σx_i − n·x²`.
pub proof fn lemma_square_deviation_nonneg(s: Seq<u64>, x: int)
    ensures
        sum_sq_of(s) - 2 * x * sum_of(s) + s.len() * (x * x) >= 0,
    decreases s.len(),
{
    if s.len() > 0 {
        let t = s.drop_last();
        let y = s.last() as int;
        lemma_square_deviation_nonneg(t, x);
        let q = sum_sq_of(t);
        let m = sum_of(t);
        let k = t.len() as int;
        assert((y - x) * (y - x) >= 0) by (nonlinear_arith);
        assert((q + y * y) - 2 * x * (m + y) + (k + 1) * (x * x) >= 0) by (nonlinear_arith)
            requires
                q - 2 * x * m + k * (x * x) >= 0,
                (y - x) * (y - x) >= 0,
        ;
    }
}

/// The Cauchy–Schwarz bound that keeps the variance numerator
/// non-negative: `n·Σx² >= (Σx)²`.
pub proof fn lemma_count_times_sum_sq_bound(s: Seq<u64>)
    ensures
        s.len() * sum_sq_of(s) >= sum_of(s) * sum_of(s),
    decreases s.len(),
{
    if s.len() > 0 {
        let t = s.drop_last();
        let y = s.last() as int;
        lemma_count_times_sum_sq_bound(t);
        lemma_square_deviation_nonneg(t, y);
        let q = sum_sq_of(t);
        let m = sum_of(t);
        let k = t.len() as int;
        assert((k + 1) * (q + y * y) >= (m + y) * (m + y)) by (nonlinear_arith)
            requires
                k * q >= m * m,
                q - 2 * y * m + k * (y * y) >= 0,
        ;
    }
}

/// Two ascending sequences of the same values are the same sequence: the
/// rearrangement in `stats_of` is unique.
pub proof fn lemma_sorted_unique(t1: Seq<u64>, t2: Seq<u64>)
    requires
        sorted(t1),
        sorted(t2),
        t1.to_multiset() == t2.to_multiset(),
    ensures
        t1 == t2,
    decreases t1.len(),
{
    broadcast use group_to_multiset_ensures;

    assert(t1.len() == t1.to_multiset().len());
    assert(t2.len() == t2.to_multiset().len());
    if t1.len() == 0 {
        assert(t1 =~= t2);
    } else {
        let n = t1.len() as int;
        assert(t2.len() == n);
        let x1 = t1.last();
        let x2 = t2.last();
        assert(t1.contains(x1));
        assert(t2.to_multiset().count(x1) > 0);
        assert(t2.contains(x1));
        let i2 = choose|i: int| 0 <= i < n && t2[i] == x1;
        assert(x1 <= x2);
        assert(t2.contains(x2));
        assert(t1.to_multiset().count(x2) > 0);
        assert(t1.contains(x2));
        let i1 = choose|i: int| 0 <= i < n && t1[i] == x2;
        assert(x2 <= x1);
        let s1 = t1.drop_last();
        let s2 = t2.drop_last();
        assert(s1 =~= t1.remove(n - 1));
        assert(s2 =~= t2.remove(n - 1));
        assert(s1.to_multiset() =~= t1.to_multiset().remove(x1));
        assert(s2.to_multiset() =~= t2.to_multiset().remove(x2));
        assert(s1.to_multiset() == s2.to_multiset());
        assert(sorted(s1));
        assert(sorted(s2));
        lemma_sorted_unique(s1, s2);
        assert forall|i: int| 0 <= i < n implies t1[i] == t2[i] by {
            if i < n - 1 {
                assert(s1[i] == t1[i]);
                assert(s2[i] == t2[i]);
            } else {
                assert(t1[i] == x1);
                assert(t2[i] == x2);
            }
        }
        assert(t1 =~= t2);
    }
}

/// Aggregation is a function of the collected ages alone: two statistics of
/// the same multiset of ages are equal, whatever order the trials finished
/// in.
pub proof fn lemma_stats_deterministic(
    s1: AggregateStatistics,
    s2: AggregateStatistics,
    ages: Seq<u64>,
)
    requires
        stats_of(s1, ages),
        stats_of(s2, ages),
    ensures
        s1 == s2,
{
    let t1 = choose|t: Seq<u64>|
        #[trigger] stats_match(s1, t) && t.to_multiset() == ages.to_multiset();
    let t2 = choose|t: Seq<u64>|
        #[trigger] stats_match(s2, t) && t.to_multiset() == ages.to_multiset();
    lemma_sorted_unique(t1, t2);
}

/// Relies on rayon's `par_sort_unstable`: sorts the slice into ascending
/// order in parallel; a sort only permutes the elements, so the multiset of
/// values is unchanged.
#[verifier::external_body]
fn sort_ages(ages: &mut Vec<u64>)
    ensures
        final (ages)@.len() == old(ages)@.len(),
        final (ages)@.to_multiset() == old(ages)@.to_multiset(),
        sorted(final (ages)@),
{
    ages.par_sort_unstable();
}

/// Sort the ages and reduce them to their exact summary statistics.
/// Succeeds exactly on a non-empty result set; zero trials yield the
/// explicit empty-result-set failure rather than undefined statistics.
pub fn aggregate(ages: &Vec<u64>) -> (r: Result<AggregateStatistics, SimError>)
    requires
        ages@.len() <= MAX_SAMPLES,
        forall|i: int| 0 <= i < ages@.len() ==> #[trigger] ages@[i] <= AGE_UNITS_CAP,
    ensures
        match r {
            Ok(s) => ages@.len() > 0 && s.count == ages@.len() && stats_of(s, ages@),
            Err(e) => ages@.len() == 0 && e == SimError::EmptyResultSet,
        },
{
    let n = ages.len();
    if n == 0 {
        return Err(SimError::EmptyResultSet);
    }
    let mut data: Vec<u64> = Vec::new();
    let mut i: usize = 0;
    while i < n
        invariant
            n == ages@.len(),
            i <= n,
            data@ == ages@.take(i as int),
        decreases n - i,
    {
        data.push(ages[i]);
        proof {
            assert(data@ =~= ages@.take(i + 1));
        }
        i = i + 1;
    }
    proof {
        assert(data@ =~= ages@);
    }
    sort_ages(&mut data);
    proof {
        broadcast use group_to_multiset_ensures;

        assert forall|j: int| 0 <= j < data@.len() implies #[trigger] data@[j] <= AGE_UNITS_CAP by {
            assert(data@.contains(data@[j]));
            assert(ages@.to_multiset().count(data@[j]) > 0);
            assert(ages@.contains(data@[j]));
            let w = choose|w: int| 0 <= w < ages@.len() && ages@[w] == data@[j];
            assert(ages@[w] <= AGE_UNITS_CAP);
        }
    }
    let min = data[0];
    let max = data[n - 1];
    let median_times_two: u64 = if n % 2 == 1 {
        2 * data[n / 2]
    } else {
        data[n / 2 - 1] + data[n / 2]
    };
    let mut sum: u64 = 0;
    i = 0;
    while i < n
        invariant
            n == data@.len(),
            i <= n,
            n <= MAX_SAMPLES,
            forall|j: int| 0 <= j < data@.len() ==> #[trigger] data@[j] <= AGE_UNITS_CAP,
            sum as int == sum_of(data@.take(i as int)),
            sum as int <= (i as int) * (AGE_UNITS_CAP as int),
        decreases n - i,
    {
        proof {
            assert(data@.take(i + 1).drop_last() =~= data@.take(i as int));
            assert(data@.take(i + 1).last() == data@[i as int]);
        }
        sum = sum + data[i];
        i = i + 1;
    }
    let mut sum_sq: u128 = 0;
    i = 0;
    while i < n
        invariant
            n == data@.len(),
            i <= n,
            n <= MAX_SAMPLES,
            forall|j: int| 0 <= j < data@.len() ==> #[trigger] data@[j] <= AGE_UNITS_CAP,
            sum_sq as int == sum_sq_of(data@.take(i as int)),
            sum_sq as int <= (i as int) * (AGE_UNITS_CAP_SQ as int),
        decreases n - i,
    {
        proof {
            assert(data@.take(i + 1).drop_last() =~= data@.take(i as int));
            assert(data@.take(i + 1).last() == data@[i as int]);
            lemma_mul_upper_bound(
                data@[i as int] as int,
                AGE_UNITS_CAP as int,
                data@[i as int] as int,
                AGE_UNITS_CAP as int,
            );
            assert((AGE_UNITS_CAP as int) * (AGE_UNITS_CAP as int) == AGE_UNITS_CAP_SQ as int);
        }
        let x: u128 = data[i] as u128;
        sum_sq = sum_sq + x * x;
        i = i + 1;
    }
    proof {
        assert(data@.take(n as int) =~= data@);
        lemma_sums_nonneg(data@);
        lemma_count_times_sum_sq_bound(data@);
        lemma_mul_upper_bound(
            n as int,
            MAX_SAMPLES as int,
            sum_sq as int,
            (MAX_SAMPLES as int) * (AGE_UNITS_CAP_SQ as int),
        );
        lemma_mul_upper_bound(
            sum as int,
            (MAX_SAMPLES as int) * (AGE_UNITS_CAP as int),
            sum as int,
            (MAX_SAMPLES as int) * (AGE_UNITS_CAP as int),
        );
    }
    let count_sq_sum: u128 = (n as u128) * sum_sq;
    let sum_squared: u128 = (sum as u128) * (sum as u128);
    let variance_num: u128 = count_sq_sum - sum_squared;
    let s = AggregateStatistics { count: n, min, max, median_times_two, sum, variance_num };
    proof {
        assert(stats_match(s, data@));
        assert(stats_of(s, ages@));
    }
    Ok(s)
}

} // verus!
