//! The read model of one trace: its attempts, observations, evidence and advice.
use vstd::prelude::*;
use crate::text::owned;

verus! {

/// Every section of a trace's detail view, and the projection version it reflects.
#[derive(Debug, Clone, PartialEq, Eq)]
pub struct TraceDetail<TAttempt, TObservation, TEvidence, TRecommendation> {
    pub trace_id: String,
    pub attempts: Vec<TAttempt>,
    pub observations: Vec<TObservation>,
    pub evidence: Vec<TEvidence>,
    pub recommendations: Vec<TRecommendation>,
    pub projection_watermark: u64,
}

impl<TAttempt, TObservation, TEvidence, TRecommendation> TraceDetail<
    TAttempt,
    TObservation,
    TEvidence,
    TRecommendation,
> {
    /// An empty detail view of a trace at a projection watermark.
    pub fn new(trace_id: &str, projection_watermark: u64) -> (d: Self)
        ensures
            d.trace_id@ == trace_id@,
            d.attempts@.len() == 0,
            d.observations@.len() == 0,
            d.evidence@.len() == 0,
            d.recommendations@.len() == 0,
            d.projection_watermark == projection_watermark,
    {
        TraceDetail {
            trace_id: owned(trace_id),
            attempts: Vec::new(),
            observations: Vec::new(),
            evidence: Vec::new(),
            recommendations: Vec::new(),
            projection_watermark,
        }
    }
}

} // verus!
