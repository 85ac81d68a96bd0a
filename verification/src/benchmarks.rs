//! The integer side of the capacity benchmarks: admissible inputs, lags and
//! latency picks. Rates are derived from these outside the library.
use vstd::prelude::*;
use crate::ranking::{sort_by_rank, rank_sorted, lemma_rank_sorted_len};

verus! {

/// The 95th-percentile sample of a collector run: index
/// `min((n - 1) * 95 / 100, n - 1)` of the sorted samples, or 0 without samples.
pub open spec fn collector_p95(samples: Seq<u64>) -> u64 {
    if samples.len() == 0 {
        0
    } else {
        let sorted = rank_sorted(samples);
        let last = samples.len() - 1;
        let i = (last * 95) / 100;
        sorted[if i <= last { i } else { last }]
    }
}

/// The 95th-percentile latency of collected microsecond samples.
pub fn collector_p95_latency(samples: Vec<u64>) -> (p: u64)
    requires
        samples@.len() == 0 || (samples@.len() - 1) * 95 <= usize::MAX,
    ensures
        p == collector_p95(samples@),
{
    let mut sorted = samples;
    sort_by_rank(&mut sorted);
    proof {
        lemma_rank_sorted_len(samples@);
    }
    let n = sorted.len();
    if n == 0 {
        return 0;
    }
    let last = n - 1;
    let i = (last * 95) / 100;
    let index = if i <= last { i } else { last };
    sorted[index]
}

/// An observer run can be rated when it made batches and calls over a
/// positive time, and no more calls were rate-limited than were made.
pub fn observer_run_valid(batches: u64, rpc_calls: u64, rate_limited: u64, elapsed_ms: u64) -> (b: bool)
    ensures
        b == (batches > 0 && rpc_calls > 0 && elapsed_ms > 0 && rate_limited <= rpc_calls),
{
    batches > 0 && rpc_calls > 0 && elapsed_ms > 0 && rate_limited <= rpc_calls
}

/// A run can be rated when it handled something over a positive time.
pub fn run_valid(count: u64, elapsed_ms: u64) -> (b: bool)
    ensures
        b == (count > 0 && elapsed_ms > 0),
{
    count > 0 && elapsed_ms > 0
}

/// How far the projection lags its target watermark; never negative.
pub fn watermark_lag(target_watermark: u64, current_watermark: u64) -> (lag: u64)
    ensures
        lag == (if target_watermark >= current_watermark { target_watermark - current_watermark } else { 0 }),
{
    target_watermark.saturating_sub(current_watermark)
}

/// Storage can be normalized only by non-zero event and trace counts.
pub fn storage_counts_valid(events: u64, traces: u64) -> (b: bool)
    ensures
        b == (events > 0 && traces > 0),
{
    events > 0 && traces > 0
}

} // verus!
