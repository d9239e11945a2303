//! What the units of a run report, and the figures drawn from it.

use crate::timing::{duration_nanos, duration_of, subsecond_nanos, whole_seconds, NANOS_PER_SEC};
use std::time::Duration;
use vstd::arithmetic::div_mod::*;
use vstd::prelude::*;

verus! {

/// What a work unit reports when it succeeds.
#[derive(Debug, Clone, Copy, PartialEq, Eq)]
pub struct TaskResult {
    /// How many files the unit read back.
    pub files_processed: usize,
    /// How long the unit ran.
    pub task_time: Duration,
}

/// The figures of a run, over the units that succeeded.
#[derive(Debug, Clone, Copy, PartialEq, Eq)]
pub struct Summary {
    /// How many units succeeded.
    pub succeeded: usize,
    /// How many files they read back, all together.
    pub total_files: u128,
    /// The mean of their running times, rounded down to a nanosecond; none
    /// where no unit succeeded.
    pub average_task_time: Option<Duration>,
}

/// The files read back by all of `results` together.
pub open spec fn total_files(results: Seq<TaskResult>) -> nat
    decreases results.len(),
{
    if results.len() == 0 {
        0
    } else {
        total_files(results.drop_last()) + results.last().files_processed as nat
    }
}

/// The running times of all of `results` together, in nanoseconds.
pub open spec fn total_nanos(results: Seq<TaskResult>) -> nat
    decreases results.len(),
{
    if results.len() == 0 {
        0
    } else {
        total_nanos(results.drop_last()) + duration_nanos(results.last().task_time)
    }
}

/// The mean running time of `results` in nanoseconds, rounded down.
pub open spec fn average_nanos(results: Seq<TaskResult>) -> nat
    recommends
        results.len() > 0,
{
    total_nanos(results) / results.len()
}

/// The quotient of `secs * 10^9 + nanos` by `count`, from the quotient and
/// remainder of `secs` alone.
proof fn lemma_split_division(secs: int, nanos: int, count: int)
    requires
        0 <= secs,
        0 <= nanos,
        0 < count,
    ensures
        (secs * 1_000_000_000 + nanos) / count == (secs / count) * 1_000_000_000 + ((secs % count)
            * 1_000_000_000 + nanos) / count,
{
    let a = secs / count;
    let r = secs % count;
    let x = r * 1_000_000_000 + nanos;
    lemma_fundamental_div_mod(secs, count);
    lemma_fundamental_div_mod(x, count);
    lemma_mod_bound(x, count);
    assert(secs * 1_000_000_000 + nanos == (a * 1_000_000_000 + x / count) * count + x % count)
        by (nonlinear_arith)
        requires
            secs == count * a + r,
            x == r * 1_000_000_000 + nanos,
            x == count * (x / count) + x % count,
    ;
    lemma_fundamental_div_mod_converse(
        secs * 1_000_000_000 + nanos,
        count,
        a * 1_000_000_000 + x / count,
        x % count,
    );
}

/// A total of at most `count * bound` has a mean of at most `bound`.
proof fn lemma_mean_within_bound(total: int, count: int, bound: int)
    requires
        0 < count,
        0 <= total <= count * bound,
    ensures
        0 <= total / count <= bound,
{
    lemma_div_is_ordered(total, count * bound, count);
    lemma_div_multiples_vanish(bound, count);
    lemma_div_pos_is_pos(total, count);
}

/// Draws the figures of a run from the results of its successful units.
pub fn summarize(results: &Vec<TaskResult>) -> (summary: Summary)
    ensures
        summary.succeeded == results.len(),
        summary.total_files == total_files(results@),
        results.len() == 0 ==> summary.average_task_time is None,
        results.len() > 0 ==> (summary.average_task_time matches Some(mean) && duration_nanos(mean)
            == average_nanos(results@)),
{
    let count: usize = results.len();
    let mut files: u128 = 0;
    let mut secs: u128 = 0;
    let mut nanos: u128 = 0;
    let mut i: usize = 0;
    assert(results@.take(0) =~= Seq::<TaskResult>::empty());
    while i < count
        invariant
            i <= count,
            count == results.len(),
            files == total_files(results@.take(i as int)),
            files <= i * usize::MAX,
            secs * NANOS_PER_SEC + nanos == total_nanos(results@.take(i as int)),
            secs <= i * u64::MAX,
            nanos <= i * (NANOS_PER_SEC - 1),
        decreases count - i,
    {
        let result = results[i];
        let s: u64 = whole_seconds(&result.task_time);
        let n: u32 = subsecond_nanos(&result.task_time);
        proof {
            let t = duration_nanos(result.task_time) as int;
            lemma_fundamental_div_mod(t, NANOS_PER_SEC as int);
            assert(results@.take(i + 1).drop_last() =~= results@.take(i as int));
            assert(results@.take(i + 1).last() == result);
            assert((i + 1) * usize::MAX == i * usize::MAX + usize::MAX) by (nonlinear_arith);
            assert((i + 1) * u64::MAX == i * u64::MAX + u64::MAX) by (nonlinear_arith);
            assert((i + 1) * (NANOS_PER_SEC - 1) == i * (NANOS_PER_SEC - 1) + (NANOS_PER_SEC - 1))
                by (nonlinear_arith);
            assert(i * usize::MAX <= 0xffff_ffff_ffff_fffe * 0xffff_ffff_ffff_ffff) by (nonlinear_arith)
                requires
                    i <= 0xffff_ffff_ffff_fffe,
                    usize::MAX <= 0xffff_ffff_ffff_ffff,
            ;
            assert(i * u64::MAX <= 0xffff_ffff_ffff_fffe * 0xffff_ffff_ffff_ffff) by (nonlinear_arith)
                requires
                    i <= 0xffff_ffff_ffff_fffe,
            ;
            assert(i * (NANOS_PER_SEC - 1) <= 0xffff_ffff_ffff_fffe * 999_999_999) by (nonlinear_arith)
                requires
                    i <= 0xffff_ffff_ffff_fffe,
                    NANOS_PER_SEC == 1_000_000_000,
            ;
        }
        files = files + result.files_processed as u128;
        secs = secs + s as u128;
        nanos = nanos + n as u128;
        i = i + 1;
    }
    assert(results@.take(count as int) =~= results@);
    if count == 0 {
        return Summary { succeeded: 0, total_files: files, average_task_time: None };
    }
    let n: u128 = count as u128;
    proof {
        assert(secs <= count * u64::MAX);
        lemma_mean_within_bound(secs as int, count as int, u64::MAX as int);
        lemma_mod_bound(secs as int, count as int);
        assert((secs % n) * 1_000_000_000 <= 0xffff_ffff_ffff_ffff * 1_000_000_000) by (nonlinear_arith)
            requires
                secs % n < n,
                n <= 0xffff_ffff_ffff_ffff,
        ;
        assert(count * (NANOS_PER_SEC - 1) <= 0xffff_ffff_ffff_ffff * 999_999_999) by (nonlinear_arith)
            requires
                count <= 0xffff_ffff_ffff_ffff,
                NANOS_PER_SEC == 1_000_000_000,
        ;
    }
    let rest: u128 = (secs % n) * 1_000_000_000 + nanos;
    let mean: u128 = (secs / n) * 1_000_000_000 + rest / n;
    proof {
        lemma_split_division(secs as int, nanos as int, count as int);
        assert(mean == average_nanos(results@));
        let bound = u64::MAX * 1_000_000_000 + 999_999_999;
        assert(total_nanos(results@) <= count * bound) by (nonlinear_arith)
            requires
                total_nanos(results@) == secs * 1_000_000_000 + nanos,
                secs <= count * u64::MAX,
                nanos <= count * 999_999_999,
                bound == u64::MAX * 1_000_000_000 + 999_999_999,
        ;
        lemma_mean_within_bound(total_nanos(results@) as int, count as int, bound);
        lemma_fundamental_div_mod(mean as int, 1_000_000_000);
        lemma_mod_bound(mean as int, 1_000_000_000);
    }
    let mean_secs: u128 = mean / 1_000_000_000;
    let mean_nanos: u128 = mean % 1_000_000_000;
    assert(mean_secs <= u64::MAX) by {
        lemma_div_is_ordered(mean as int, u64::MAX * 1_000_000_000 + 999_999_999, 1_000_000_000);
        lemma_div_multiples_vanish_fancy(u64::MAX as int, 999_999_999, 1_000_000_000);
    }
    let mean_time = duration_of(mean_secs as u64, mean_nanos as u32);
    Summary { succeeded: count, total_files: files, average_task_time: Some(mean_time) }
}

} // verus!
