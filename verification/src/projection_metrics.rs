//! In-process projection and dead-job counters.
use vstd::prelude::*;
use crate::observation_worker::bumped;

verus! {

/// Counters of one projector process; each wraps around at `u64::MAX`.
#[derive(Debug, Clone, Copy, PartialEq, Eq, Structural)]
pub struct ProjectionMetrics {
    pub projected_total: u64,
    pub failed_total: u64,
    pub dead_total: u64,
    pub lag_millis: u64,
}

/// A point-in-time copy of the projector counters.
#[derive(Debug, Clone, Copy, PartialEq, Eq, Structural)]
pub struct ProjectionMetricsSnapshot {
    pub projected_total: u64,
    pub failed_total: u64,
    pub dead_total: u64,
    pub lag_millis: u64,
}

impl Default for ProjectionMetrics {
    fn default() -> (m: Self)
        ensures
            m == (ProjectionMetrics { projected_total: 0, failed_total: 0, dead_total: 0, lag_millis: 0 }),
    {
        ProjectionMetrics { projected_total: 0, failed_total: 0, dead_total: 0, lag_millis: 0 }
    }
}

impl ProjectionMetrics {
    /// All counters at zero.
    pub fn new() -> (m: Self)
        ensures
            m == (ProjectionMetrics { projected_total: 0, failed_total: 0, dead_total: 0, lag_millis: 0 }),
    {
        ProjectionMetrics { projected_total: 0, failed_total: 0, dead_total: 0, lag_millis: 0 }
    }

    /// Counts a projected trace.
    pub fn record_projected(&mut self)
        ensures
            *final(self) == (ProjectionMetrics {
                projected_total: bumped(old(self).projected_total),
                ..*old(self)
            }),
    {
        self.projected_total = self.projected_total.wrapping_add(1);
    }

    /// Counts a failed projection.
    pub fn record_failed(&mut self)
        ensures
            *final(self) == (ProjectionMetrics { failed_total: bumped(old(self).failed_total), ..*old(self) }),
    {
        self.failed_total = self.failed_total.wrapping_add(1);
    }

    /// Counts a dead-lettered projection job.
    pub fn record_dead(&mut self)
        ensures
            *final(self) == (ProjectionMetrics { dead_total: bumped(old(self).dead_total), ..*old(self) }),
    {
        self.dead_total = self.dead_total.wrapping_add(1);
    }

    /// Records the current projection lag.
    pub fn set_lag_millis(&mut self, value: u64)
        ensures
            *final(self) == (ProjectionMetrics { lag_millis: value, ..*old(self) }),
    {
        self.lag_millis = value;
    }

    /// A copy of every counter.
    pub fn snapshot(&self) -> (s: ProjectionMetricsSnapshot)
        ensures
            s == (ProjectionMetricsSnapshot {
                projected_total: self.projected_total,
                failed_total: self.failed_total,
                dead_total: self.dead_total,
                lag_millis: self.lag_millis,
            }),
    {
        ProjectionMetricsSnapshot {
            projected_total: self.projected_total,
            failed_total: self.failed_total,
            dead_total: self.dead_total,
            lag_millis: self.lag_millis,
        }
    }
}

} // verus!
