//! Dashboard query latency, per query class.
use vstd::prelude::*;
use crate::query_benchmark::{QueryLatencyResult, summarize_query_latency, latency_summary};

verus! {

/// The overview and comparison classes, summarized separately.
#[derive(Debug, Clone, Copy, PartialEq, Eq, Structural)]
pub struct DashboardQueryResult {
    pub overview: Option<QueryLatencyResult>,
    pub comparison: Option<QueryLatencyResult>,
}

/// Summarizes each dashboard query class on its own, so that a slow class is
/// never hidden by a fast one.
pub fn summarize_dashboard_queries(overview_samples: Vec<u64>, comparison_samples: Vec<u64>) -> (r:
    DashboardQueryResult)
    requires
        overview_samples@.len() == 0 || (overview_samples@.len() - 1) * 95 <= usize::MAX,
        comparison_samples@.len() == 0 || (comparison_samples@.len() - 1) * 95 <= usize::MAX,
    ensures
        r.overview == (if overview_samples@.len() == 0 {
            None
        } else {
            Some(latency_summary(overview_samples@))
        }),
        r.comparison == (if comparison_samples@.len() == 0 {
            None
        } else {
            Some(latency_summary(comparison_samples@))
        }),
{
    DashboardQueryResult {
        overview: summarize_query_latency(overview_samples),
        comparison: summarize_query_latency(comparison_samples),
    }
}

} // verus!
