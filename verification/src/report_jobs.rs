//! The report-job registry and the transitions a report worker applies.
use vstd::prelude::*;
use crate::ids::new_v7;
use std::collections::HashMap;

verus! {

/// Where a report job stands.
#[derive(Debug, Clone, Copy, PartialEq, Eq, Structural)]
pub enum ReportJobStatus {
    Queued,
    Running,
    Completed,
    Failed,
}

/// One report job.
#[derive(Debug, Clone, PartialEq, Eq)]
pub struct ReportJob {
    pub id: u128,
    pub projection_watermark: u64,
    pub status: ReportJobStatus,
    pub error: Option<String>,
}

/// The jobs known to one process, keyed by id.
pub struct ReportJobRegistry {
    jobs: HashMap<u128, ReportJob>,
}

impl ReportJobRegistry {
    /// The registered jobs, by id.
    pub closed spec fn jobs(self) -> Map<u128, ReportJob> {
        self.jobs@
    }

    /// An empty registry.
    pub fn new() -> (r: ReportJobRegistry)
        ensures
            r.jobs() == Map::<u128, ReportJob>::empty(),
    {
        ReportJobRegistry { jobs: HashMap::new() }
    }

    /// Registers job `id` as queued at a projection watermark, replacing any
    /// job that had the same id.
    pub fn create_with_id(&mut self, id: u128, projection_watermark: u64) -> (job: ReportJob)
        ensures
            job == (ReportJob { id, projection_watermark, status: ReportJobStatus::Queued, error: None }),
            final(self).jobs() == old(self).jobs().insert(id, job),
    {
        broadcast use vstd::std_specs::hash::group_hash_axioms;
        let stored = ReportJob { id, projection_watermark, status: ReportJobStatus::Queued, error: None };
        self.jobs.insert(id, stored);
        ReportJob { id, projection_watermark, status: ReportJobStatus::Queued, error: None }
    }

    /// Registers a new queued job at a projection watermark, under a fresh
    /// time-ordered id.
    pub fn create(&mut self, projection_watermark: u64) -> (job: ReportJob)
        ensures
            job.projection_watermark == projection_watermark,
            job.status == ReportJobStatus::Queued,
            job.error is None,
            final(self).jobs() == old(self).jobs().insert(job.id, job),
    {
        self.create_with_id(new_v7(), projection_watermark)
    }

    /// The job with id `id`, if registered.
    pub fn get(&self, id: u128) -> (r: Option<&ReportJob>)
        ensures
            match r {
                Some(j) => self.jobs().contains_key(id) && *j == self.jobs()[id],
                None => !self.jobs().contains_key(id),
            },
    {
        broadcast use vstd::std_specs::hash::group_hash_axioms;
        self.jobs.get(&id)
    }

    /// Moves job `id` to `status` with `error`; an unknown id changes nothing.
    pub fn set_status(&mut self, id: u128, status: ReportJobStatus, error: Option<String>)
        ensures
            if old(self).jobs().contains_key(id) {
                final(self).jobs() == old(self).jobs().insert(
                    id,
                    ReportJob { status, error, ..old(self).jobs()[id] },
                )
            } else {
                final(self).jobs() == old(self).jobs()
            },
    {
        broadcast use vstd::std_specs::hash::group_hash_axioms;
        let found = match self.jobs.get(&id) {
            Some(job) => Some((job.id, job.projection_watermark)),
            None => None,
        };
        match found {
            Some((job_id, projection_watermark)) => {
                let updated = ReportJob { id: job_id, projection_watermark, status, error };
                self.jobs.insert(id, updated);
            },
            None => {},
        }
    }
}

/// The status a finished job is left in: completed, or failed with the
/// worker's error.
pub fn finished_status(outcome: Result<(), String>) -> (r: (ReportJobStatus, Option<String>))
    ensures
        match outcome {
            Ok(()) => r.0 == ReportJobStatus::Completed && r.1 is None,
            Err(e) => r.0 == ReportJobStatus::Failed && r.1 == Some(e),
        },
{
    match outcome {
        Ok(()) => (ReportJobStatus::Completed, None),
        Err(e) => (ReportJobStatus::Failed, Some(e)),
    }
}

} // verus!
