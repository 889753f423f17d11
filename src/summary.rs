use vstd::prelude::*;

use crate::probe::ProbeResult;

verus! {

/// A timed operation of a probe.
#[derive(Clone, Copy, Debug, PartialEq, Eq, Structural)]
pub enum Category {
    Open,
    FirstRead,
    NearRead,
    FarRead,
}

/// The time a probe reports for one category.
pub open spec fn category_ns(p: ProbeResult, k: Category) -> u64 {
    match k {
        Category::Open => p.open_ns,
        Category::FirstRead => p.first_read_ns,
        Category::NearRead => p.near_read_ns,
        Category::FarRead => p.far_read_ns,
    }
}

/// The sum of one category's times over a sequence of probes.
pub open spec fn category_sum(s: Seq<ProbeResult>, k: Category) -> int
    decreases s.len(),
{
    if s.len() == 0 {
        0
    } else {
        category_sum(s.drop_last(), k) + category_ns(s.last(), k)
    }
}

/// The arithmetic mean of one category over a non-empty sequence of probes,
/// rounded down.
pub open spec fn category_mean(s: Seq<ProbeResult>, k: Category) -> int {
    category_sum(s, k) / (s.len() as int)
}

/// The averages of a run, in nanoseconds, and its wall-clock length.
#[derive(Clone, Copy, Debug, PartialEq, Eq, Structural)]
pub struct RunSummary {
    pub files: u64,
    pub open_ns: u64,
    pub first_read_ns: u64,
    pub near_read_ns: u64,
    pub far_read_ns: u64,
    pub run_ns: u64,
}

fn time_of(p: &ProbeResult, k: Category) -> (r: u64)
    ensures
        r == category_ns(*p, k),
{
    match k {
        Category::Open => p.open_ns,
        Category::FirstRead => p.first_read_ns,
        Category::NearRead => p.near_read_ns,
        Category::FarRead => p.far_read_ns,
    }
}

/// The sum of one category's times over all results.
pub fn sum_category(results: &Vec<ProbeResult>, k: Category) -> (r: u128)
    ensures
        r == category_sum(results@, k),
{
    let mut sum: u128 = 0;
    let mut i: usize = 0;
    while i < results.len()
        invariant
            i <= results@.len(),
            sum == category_sum(results@.take(i as int), k),
            sum <= i * (u64::MAX as int),
        decreases results@.len() - i,
    {
        let v = time_of(&results[i], k);
        assert(results@.take(i + 1).drop_last() =~= results@.take(i as int));
        assert(sum + v <= (i + 1) * (u64::MAX as int)) by (nonlinear_arith)
            requires
                sum <= i * (u64::MAX as int),
                v <= u64::MAX,
        ;
        assert((i + 1) * (u64::MAX as int) <= (usize::MAX as int) * (u64::MAX as int))
            by (nonlinear_arith)
            requires
                i + 1 <= usize::MAX,
        ;
        sum = sum + v as u128;
        i = i + 1;
    }
    assert(results@.take(i as int) =~= results@);
    sum
}

fn mean_category(results: &Vec<ProbeResult>, k: Category) -> (r: u64)
    requires
        results@.len() > 0,
    ensures
        r == category_mean(results@, k),
{
    let sum = sum_category(results, k);
    proof {
        lemma_sum_bounded(results@, k);
        let n = results@.len() as int;
        let t = sum as int;
        assert(t / n <= u64::MAX) by (nonlinear_arith)
            requires
                0 <= t <= n * (u64::MAX as int),
                n > 0,
        ;
    }
    (sum / results.len() as u128) as u64
}

proof fn lemma_sum_bounded(s: Seq<ProbeResult>, k: Category)
    ensures
        0 <= category_sum(s, k) <= s.len() * (u64::MAX as int),
    decreases s.len(),
{
    if s.len() > 0 {
        lemma_sum_bounded(s.drop_last(), k);
        assert(s.len() * (u64::MAX as int) == (s.len() - 1) * (u64::MAX as int) + u64::MAX)
            by (nonlinear_arith);
    }
}

/// Reduces the results of a run to per-category means, each the sum over all
/// files divided once by the number of files. `None` when there are no
/// results to average.
pub fn summarize(results: &Vec<ProbeResult>, run_ns: u64) -> (r: Option<RunSummary>)
    ensures
        r is None <==> results@.len() == 0,
        r matches Some(s) ==> {
            &&& s.files == results@.len()
            &&& s.open_ns == category_mean(results@, Category::Open)
            &&& s.first_read_ns == category_mean(results@, Category::FirstRead)
            &&& s.near_read_ns == category_mean(results@, Category::NearRead)
            &&& s.far_read_ns == category_mean(results@, Category::FarRead)
            &&& s.run_ns == run_ns
        },
{
    if results.len() == 0 {
        return None;
    }
    Some(
        RunSummary {
            files: results.len() as u64,
            open_ns: mean_category(results, Category::Open),
            first_read_ns: mean_category(results, Category::FirstRead),
            near_read_ns: mean_category(results, Category::NearRead),
            far_read_ns: mean_category(results, Category::FarRead),
            run_ns,
        },
    )
}

} // verus!
