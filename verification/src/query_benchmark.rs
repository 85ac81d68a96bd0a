//! Latency percentiles of collected query samples.
use vstd::prelude::*;
use crate::ranking::{Ranked, sort_by_rank, rank_sorted, rank_ordered, rank_sorted_is_ordered, lemma_rank_sorted_len};

verus! {

/// Latency percentiles of one query class, in microseconds.
#[derive(Debug, Clone, Copy, PartialEq, Eq, Structural)]
pub struct QueryLatencyResult {
    pub samples: usize,
    pub p50_us: u64,
    pub p95_us: u64,
    pub max_us: u64,
}

/// The sample at `percent` of the sorted samples: index `(n - 1) * percent / 100`.
pub open spec fn percentile(sorted: Seq<u64>, percent: nat) -> u64 {
    sorted[((sorted.len() - 1) * percent) / 100]
}

/// The percentiles of a non-empty sample set.
pub open spec fn latency_summary(samples: Seq<u64>) -> QueryLatencyResult {
    let sorted = rank_sorted(samples);
    QueryLatencyResult {
        samples: samples.len() as usize,
        p50_us: percentile(sorted, 50),
        p95_us: percentile(sorted, 95),
        max_us: sorted.last(),
    }
}

/// Computes latency percentiles from microsecond samples; `None` without samples.
pub fn summarize_query_latency(samples: Vec<u64>) -> (r: Option<QueryLatencyResult>)
    requires
        samples@.len() == 0 || (samples@.len() - 1) * 95 <= usize::MAX,
    ensures
        samples@.len() == 0 ==> r is None,
        samples@.len() > 0 ==> r == Some(latency_summary(samples@)),
{
    if samples.len() == 0 {
        return None;
    }
    let mut sorted = samples;
    sort_by_rank(&mut sorted);
    proof {
        lemma_rank_sorted_len(samples@);
    }
    let n = sorted.len();
    let p50 = sorted[((n - 1) * 50) / 100];
    let p95 = sorted[((n - 1) * 95) / 100];
    let max = sorted[n - 1];
    Some(QueryLatencyResult { samples: n, p50_us: p50, p95_us: p95, max_us: max })
}

/// The percentiles are ordered: the median never exceeds the 95th
/// percentile, which never exceeds the maximum.
pub proof fn percentiles_are_ordered(samples: Seq<u64>)
    requires
        samples.len() > 0,
    ensures
        latency_summary(samples).p50_us <= latency_summary(samples).p95_us,
        latency_summary(samples).p95_us <= latency_summary(samples).max_us,
{
    lemma_rank_sorted_len(samples);
    rank_sorted_is_ordered(samples);
    let sorted = rank_sorted(samples);
    let n = sorted.len();
    let a = ((n - 1) * 50) / 100;
    let b = ((n - 1) * 95) / 100;
    assert(a <= b) by (nonlinear_arith)
        requires
            n >= 1,
            a == ((n - 1) * 50) / 100,
            b == ((n - 1) * 95) / 100,
    ;
    assert(b <= n - 1) by (nonlinear_arith)
        requires
            n >= 1,
            b == ((n - 1) * 95) / 100,
    ;
    assert(0 <= a) by (nonlinear_arith)
        requires
            n >= 1,
            a == ((n - 1) * 50) / 100,
    ;
    assert(sorted[a].rank() <= sorted[b].rank());
    assert(sorted[b].rank() <= sorted[n - 1].rank());
}

} // verus!
