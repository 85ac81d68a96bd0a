//! Durable job claim/lease recovery semantics.
use vstd::prelude::*;

verus! {

#[derive(Debug, Clone, Copy, PartialEq, Eq, Structural)]
pub enum JobState {
    Pending,
    Running,
    Completed,
}

/// A durable work item with an optional lease held by its current owner.
#[derive(Debug, Clone, PartialEq, Eq)]
pub struct DurableJob {
    pub id: String,
    pub state: JobState,
    pub attempts: u32,
    pub lease_until: Option<u64>,
}

/// `u32::saturating_add` / `u64::saturating_add` on unbounded integers.
pub open spec fn saturating(sum: int, max: int) -> int {
    if sum > max {
        max
    } else {
        sum
    }
}

/// A job may be claimed when it is pending or its lease has run out.
pub open spec fn claimable(job: DurableJob, now: nat) -> bool {
    job.state == JobState::Pending || (job.lease_until matches Some(until) && until <= now)
}

/// A running job whose lease has run out may be handed back to the queue.
pub open spec fn recoverable(job: DurableJob, now: nat) -> bool {
    job.state == JobState::Running && (job.lease_until matches Some(until) && until <= now)
}

impl DurableJob {
    /// Claims a pending or expired job and assigns a lease.
    pub fn claim(&mut self, now: u64, lease_seconds: u64) -> (claimed: bool)
        ensures
            claimed == (claimable(*old(self), now as nat) && lease_seconds != 0),
            claimed ==> final(self).id == old(self).id && final(self).state == JobState::Running
                && final(self).attempts == saturating(old(self).attempts + 1, u32::MAX as int)
                && final(self).lease_until == Some(
                saturating(now + lease_seconds, u64::MAX as int) as u64,
            ),
            !claimed ==> *final(self) == *old(self),
    {
        let available = self.state == JobState::Pending || match self.lease_until {
            Some(until) => until <= now,
            None => false,
        };
        if !available || lease_seconds == 0 {
            return false;
        }
        self.state = JobState::Running;
        self.attempts = self.attempts.saturating_add(1);
        self.lease_until = Some(now.saturating_add(lease_seconds));
        true
    }

    /// Marks a running job as completed and releases its lease.
    pub fn complete(&mut self)
        ensures
            old(self).state == JobState::Running ==> *final(self) == (DurableJob {
                state: JobState::Completed,
                lease_until: None,
                ..*old(self)
            }),
            old(self).state != JobState::Running ==> *final(self) == *old(self),
    {
        if self.state == JobState::Running {
            self.state = JobState::Completed;
            self.lease_until = None;
        }
    }

    /// Returns a running job whose lease expired to the pending queue.
    pub fn recover_expired(&mut self, now: u64) -> (recovered: bool)
        ensures
            recovered == recoverable(*old(self), now as nat),
            recovered ==> *final(self) == (DurableJob {
                state: JobState::Pending,
                lease_until: None,
                ..*old(self)
            }),
            !recovered ==> *final(self) == *old(self),
    {
        let expired = match self.lease_until {
            Some(until) => until <= now,
            None => false,
        };
        if self.state == JobState::Running && expired {
            self.state = JobState::Pending;
            self.lease_until = None;
            true
        } else {
            false
        }
    }
}

/// While a lease is live, no one else can claim the job and it cannot be
/// recovered: a running job has exactly one owner until its lease ends.
pub proof fn live_lease_is_exclusive(job: DurableJob, now: nat)
    requires
        job.state == JobState::Running,
        job.lease_until matches Some(until) && until > now,
    ensures
        !claimable(job, now),
        !recoverable(job, now),
{
}

/// A completed job whose lease was released is final: it can neither be
/// claimed nor recovered again.
pub proof fn completed_job_is_final(job: DurableJob, now: nat)
    requires
        job.state == JobState::Completed,
        job.lease_until is None,
    ensures
        !claimable(job, now),
        !recoverable(job, now),
{
}

/// Recovering an expired job makes it claimable again at the same instant.
pub proof fn recovered_job_is_claimable(job: DurableJob, now: nat)
    requires
        recoverable(job, now),
    ensures
        claimable(DurableJob { state: JobState::Pending, lease_until: None, ..job }, now),
{
}

} // verus!
