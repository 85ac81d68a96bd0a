//! Settings, counters and decisions of the durable observation worker.
use vstd::prelude::*;
use crate::duration::{Duration, NANOS_PER_SEC, NANOS_PER_MILLI, MAX_NANOS};
use crate::numeric::{parse_unsigned, parse_unsigned_chars};
use crate::text::{chars_of, str_eq};
use crate::json::{JsonValue, get_text};
use crate::ids::{parse_uuid, uuid_parse};
use crate::ingest::{DurableEvent, uuid_member};
use crate::instant::{OffsetInstant, well_ranged, julian_day, local_julian_day};
use crate::digest::{sha256, sha256_digest};
use crate::text::owned;

verus! {

/// A positive setting read from its text, or `default` where the text is
/// absent, is not a number of the type, or is zero.
pub open spec fn positive_setting(text: Option<Seq<char>>, max: nat, default: nat) -> nat {
    match text {
        Some(t) => match parse_unsigned(t, 10, max) {
            Some(v) => if v > 0 {
                v
            } else {
                default
            },
            None => default,
        },
        None => default,
    }
}

pub open spec fn opt_chars(text: Option<&str>) -> Option<Seq<char>> {
    match text {
        Some(t) => Some(t@),
        None => None,
    }
}

/// Reads a positive `usize` setting.
pub fn read_positive_usize(text: Option<&str>, default: usize) -> (v: usize)
    ensures
        v == positive_setting(opt_chars(text), usize::MAX as nat, default as nat),
{
    match text {
        Some(t) => {
            let chars = chars_of(t);
            match parse_unsigned_chars(&chars, 10, usize::MAX as u128) {
                Some(v) => if v > 0 {
                    v as usize
                } else {
                    default
                },
                None => default,
            }
        },
        None => default,
    }
}

/// Reads a positive `u64` setting.
pub fn read_positive_u64(text: Option<&str>, default: u64) -> (v: u64)
    ensures
        v == positive_setting(opt_chars(text), u64::MAX as nat, default as nat),
{
    match text {
        Some(t) => {
            let chars = chars_of(t);
            match parse_unsigned_chars(&chars, 10, u64::MAX as u128) {
                Some(v) => if v > 0 {
                    v as u64
                } else {
                    default
                },
                None => default,
            }
        },
        None => default,
    }
}

/// Runtime settings for the observation worker. Every value has a safe
/// default and can be overridden by a `LANDFALL_OBSERVER_*` setting.
#[derive(Debug, Clone, Copy, PartialEq, Eq)]
pub struct ObservationWorkerConfig {
    pub concurrency: usize,
    pub poll_interval: Duration,
    pub retry_delay: Duration,
    pub lease_duration: Duration,
    pub recovery_interval: Duration,
}

impl Default for ObservationWorkerConfig {
    fn default() -> (c: Self)
        ensures
            c.concurrency == 4,
            c.poll_interval.total_nanos() == 500 * NANOS_PER_MILLI,
            c.retry_delay.total_nanos() == 5 * NANOS_PER_SEC,
            c.lease_duration.total_nanos() == 60 * NANOS_PER_SEC,
            c.recovery_interval.total_nanos() == 30 * NANOS_PER_SEC,
    {
        ObservationWorkerConfig {
            concurrency: 4,
            poll_interval: Duration::from_millis(500),
            retry_delay: Duration::from_secs(5),
            lease_duration: Duration::from_secs(60),
            recovery_interval: Duration::from_secs(30),
        }
    }
}

impl ObservationWorkerConfig {
    /// The settings from the values of `LANDFALL_OBSERVER_CONCURRENCY`,
    /// `LANDFALL_OBSERVER_POLL_INTERVAL_MS`, `LANDFALL_OBSERVER_RETRY_DELAY_SECONDS`,
    /// `LANDFALL_OBSERVER_LEASE_SECONDS` and
    /// `LANDFALL_OBSERVER_RECOVERY_INTERVAL_SECONDS`, each where it is set.
    pub fn from_env(
        concurrency: Option<&str>,
        poll_interval_ms: Option<&str>,
        retry_delay_seconds: Option<&str>,
        lease_seconds: Option<&str>,
        recovery_interval_seconds: Option<&str>,
    ) -> (c: Self)
        ensures
            c.concurrency == positive_setting(opt_chars(concurrency), usize::MAX as nat, 4),
            c.poll_interval.total_nanos() == positive_setting(
                opt_chars(poll_interval_ms),
                u64::MAX as nat,
                500,
            ) * NANOS_PER_MILLI,
            c.retry_delay.total_nanos() == positive_setting(
                opt_chars(retry_delay_seconds),
                u64::MAX as nat,
                5,
            ) * NANOS_PER_SEC,
            c.lease_duration.total_nanos() == positive_setting(
                opt_chars(lease_seconds),
                u64::MAX as nat,
                60,
            ) * NANOS_PER_SEC,
            c.recovery_interval.total_nanos() == positive_setting(
                opt_chars(recovery_interval_seconds),
                u64::MAX as nat,
                30,
            ) * NANOS_PER_SEC,
    {
        ObservationWorkerConfig {
            concurrency: read_positive_usize(concurrency, 4),
            poll_interval: Duration::from_millis(read_positive_u64(poll_interval_ms, 500)),
            retry_delay: Duration::from_secs(read_positive_u64(retry_delay_seconds, 5)),
            lease_duration: Duration::from_secs(read_positive_u64(lease_seconds, 60)),
            recovery_interval: Duration::from_secs(read_positive_u64(recovery_interval_seconds, 30)),
        }
    }
}

/// Counters owned by one worker process; the durable job state stays the
/// source of truth. Each counter wraps around at `u64::MAX`.
#[derive(Debug, Clone, Copy, PartialEq, Eq, Structural)]
pub struct ObservationWorkerMetrics {
    pub claimed_total: u64,
    pub completed_total: u64,
    pub retried_total: u64,
    pub dead_lettered_total: u64,
    pub failed_claims_total: u64,
}

/// A point-in-time copy of the worker counters.
#[derive(Debug, Clone, Copy, PartialEq, Eq, Structural)]
pub struct ObservationWorkerMetricsSnapshot {
    pub claimed_total: u64,
    pub completed_total: u64,
    pub retried_total: u64,
    pub dead_lettered_total: u64,
    pub failed_claims_total: u64,
}

/// One more, wrapping around at `u64::MAX`.
pub open spec fn bumped(n: u64) -> u64 {
    if n == u64::MAX {
        0
    } else {
        (n + 1) as u64
    }
}

impl Default for ObservationWorkerMetrics {
    fn default() -> (m: Self)
        ensures
            m.claimed_total == 0,
            m.completed_total == 0,
            m.retried_total == 0,
            m.dead_lettered_total == 0,
            m.failed_claims_total == 0,
    {
        ObservationWorkerMetrics {
            claimed_total: 0,
            completed_total: 0,
            retried_total: 0,
            dead_lettered_total: 0,
            failed_claims_total: 0,
        }
    }
}

impl ObservationWorkerMetrics {
    /// A copy of every counter.
    pub fn snapshot(&self) -> (s: ObservationWorkerMetricsSnapshot)
        ensures
            s.claimed_total == self.claimed_total,
            s.completed_total == self.completed_total,
            s.retried_total == self.retried_total,
            s.dead_lettered_total == self.dead_lettered_total,
            s.failed_claims_total == self.failed_claims_total,
    {
        ObservationWorkerMetricsSnapshot {
            claimed_total: self.claimed_total,
            completed_total: self.completed_total,
            retried_total: self.retried_total,
            dead_lettered_total: self.dead_lettered_total,
            failed_claims_total: self.failed_claims_total,
        }
    }

    /// Counts a claimed job.
    pub fn claimed(&mut self)
        ensures
            *final(self) == (ObservationWorkerMetrics {
                claimed_total: bumped(old(self).claimed_total),
                ..*old(self)
            }),
    {
        self.claimed_total = self.claimed_total.wrapping_add(1);
    }

    /// Counts a completed job.
    pub fn completed(&mut self)
        ensures
            *final(self) == (ObservationWorkerMetrics {
                completed_total: bumped(old(self).completed_total),
                ..*old(self)
            }),
    {
        self.completed_total = self.completed_total.wrapping_add(1);
    }

    /// Counts a job scheduled for another attempt.
    pub fn retried(&mut self)
        ensures
            *final(self) == (ObservationWorkerMetrics {
                retried_total: bumped(old(self).retried_total),
                ..*old(self)
            }),
    {
        self.retried_total = self.retried_total.wrapping_add(1);
    }

    /// Counts a job moved to the dead-letter state.
    pub fn dead_lettered(&mut self)
        ensures
            *final(self) == (ObservationWorkerMetrics {
                dead_lettered_total: bumped(old(self).dead_lettered_total),
                ..*old(self)
            }),
    {
        self.dead_lettered_total = self.dead_lettered_total.wrapping_add(1);
    }

    /// Counts a failed attempt to claim a job.
    pub fn failed_claim(&mut self)
        ensures
            *final(self) == (ObservationWorkerMetrics {
                failed_claims_total: bumped(old(self).failed_claims_total),
                ..*old(self)
            }),
    {
        self.failed_claims_total = self.failed_claims_total.wrapping_add(1);
    }
}

/// The longest interval between two attempts: five minutes.
pub open spec fn retry_ceiling_nanos() -> nat {
    (300 * NANOS_PER_SEC) as nat
}

/// The exponent of the backoff after `attempt` attempts: `attempt - 1`,
/// kept within `0..=16`.
pub open spec fn backoff_exponent(attempt: i32) -> nat {
    if attempt <= 1 {
        0
    } else if attempt - 1 > 16 {
        16
    } else {
        (attempt - 1) as nat
    }
}

/// `base * 2^exponent`, saturating, then capped at five minutes.
pub open spec fn retry_delay_nanos(base: nat, attempt: i32) -> nat {
    let product = base * vstd::arithmetic::power2::pow2(backoff_exponent(attempt));
    let saturated = if product <= MAX_NANOS {
        product
    } else {
        MAX_NANOS as nat
    };
    if saturated <= retry_ceiling_nanos() {
        saturated
    } else {
        retry_ceiling_nanos()
    }
}

/// Exponential retry delay with a five-minute ceiling. The database owns the
/// next attempt's timestamp; this only supplies the bounded interval.
pub fn retry_delay(base: Duration, attempt: i32) -> (d: Duration)
    ensures
        d.total_nanos() == retry_delay_nanos(base.total_nanos(), attempt),
{
    let exponent: u32 = if attempt <= 1 {
        0
    } else if attempt - 1 > 16 {
        16
    } else {
        (attempt - 1) as u32
    };
    let mut factor: u32 = 1;
    let mut k: u32 = 0;
    proof {
        vstd::arithmetic::power2::lemma2_to64();
    }
    while k < exponent
        invariant
            k <= exponent <= 16,
            factor == vstd::arithmetic::power2::pow2(k as nat),
        decreases exponent - k,
    {
        proof {
            vstd::arithmetic::power2::lemma_pow2_unfold((k + 1) as nat);
            vstd::arithmetic::power2::lemma_pow2_strictly_increases(k as nat, 16);
            vstd::arithmetic::power2::lemma2_to64();
        }
        factor = factor * 2;
        k = k + 1;
    }
    let scaled = base.saturating_mul(factor);
    scaled.shorter(Duration::from_secs(300))
}

/// Delays never exceed five minutes, and a later attempt never waits less
/// than an earlier one.
pub proof fn retry_delay_is_bounded_and_monotone(base: nat, earlier: i32, later: i32)
    requires
        earlier <= later,
    ensures
        retry_delay_nanos(base, later) <= retry_ceiling_nanos(),
        retry_delay_nanos(base, earlier) <= retry_delay_nanos(base, later),
{
    let a = backoff_exponent(earlier);
    let b = backoff_exponent(later);
    assert(a <= b);
    if a < b {
        vstd::arithmetic::power2::lemma_pow2_strictly_increases(a, b);
    }
    let pa = vstd::arithmetic::power2::pow2(a);
    let pb = vstd::arithmetic::power2::pow2(b);
    assert(base * pa <= base * pb) by (nonlinear_arith)
        requires
            pa <= pb,
    ;
}

/// The identity an observed event carries in its `event_id` member.
pub fn payload_event_id(payload: &JsonValue) -> (r: Option<u128>)
    ensures
        r == uuid_member(*payload, "event_id"@),
{
    match get_text(payload, "event_id") {
        Some(text) => parse_uuid(text),
        None => None,
    }
}

/// The stored form of an event the worker observed for a trace.
pub fn observed_event(
    event_id: u128,
    project_id: u128,
    environment_id: u128,
    trace_id: u128,
    event_type: &str,
    occurred_at: OffsetInstant,
    payload: &[u8],
) -> (d: DurableEvent)
    requires
        well_ranged(occurred_at),
    ensures
        d.event_id == event_id,
        d.project_id == project_id,
        d.environment_id == environment_id,
        d.trace_id == Some(trace_id),
        d.event_type@ == event_type@,
        d.occurred_at == occurred_at,
        d.partition_day == local_julian_day(occurred_at),
        d.payload_hash@ == sha256(payload@),
{
    DurableEvent {
        event_id,
        project_id,
        environment_id,
        trace_id: Some(trace_id),
        event_type: owned(event_type),
        occurred_at,
        partition_day: julian_day(occurred_at),
        payload_hash: sha256_digest(payload),
    }
}

/// Execution details are fetched only for a signature the RPC node found.
pub fn should_fetch_execution(source_result: &str) -> (b: bool)
    ensures
        b == (source_result@ == "found"@),
{
    str_eq(source_result, "found")
}

/// The commitment recorded with execution details: the observed one, else
/// `processed`.
pub fn execution_commitment<'a>(commitment: Option<&'a str>) -> (c: &'a str)
    ensures
        c@ == match commitment {
            Some(value) => value@,
            None => "processed"@,
        },
{
    match commitment {
        Some(value) => value,
        None => "processed",
    }
}

/// What happened in one turn of a polling loop.
#[derive(Debug, Clone, Copy, PartialEq, Eq, Structural)]
pub enum PollOutcome {
    /// A job was observed and marked complete.
    Completed,
    /// A job was observed, but marking it complete failed.
    CompletionFailed,
    /// Observing failed; another attempt was scheduled.
    RetryScheduled,
    /// Observing failed for the last time; the job was dead-lettered.
    DeadLettered,
    /// Observing failed, and scheduling the retry failed too.
    RetryFailed,
    /// There was no job to claim.
    Idle,
    /// Claiming a job failed.
    ClaimFailed,
}

/// Records one turn of a polling loop in the counters, and says whether the
/// loop waits a poll interval before its next turn.
pub fn record_poll_outcome(metrics: &mut ObservationWorkerMetrics, outcome: PollOutcome) -> (wait: bool)
    ensures
        wait == (outcome == PollOutcome::Idle || outcome == PollOutcome::ClaimFailed),
        final(metrics).claimed_total == (if outcome == PollOutcome::Idle || outcome
            == PollOutcome::ClaimFailed {
            old(metrics).claimed_total
        } else {
            bumped(old(metrics).claimed_total)
        }),
        final(metrics).completed_total == (if outcome == PollOutcome::Completed {
            bumped(old(metrics).completed_total)
        } else {
            old(metrics).completed_total
        }),
        final(metrics).retried_total == (if outcome == PollOutcome::RetryScheduled {
            bumped(old(metrics).retried_total)
        } else {
            old(metrics).retried_total
        }),
        final(metrics).dead_lettered_total == (if outcome == PollOutcome::DeadLettered {
            bumped(old(metrics).dead_lettered_total)
        } else {
            old(metrics).dead_lettered_total
        }),
        final(metrics).failed_claims_total == (if outcome == PollOutcome::ClaimFailed {
            bumped(old(metrics).failed_claims_total)
        } else {
            old(metrics).failed_claims_total
        }),
{
    match outcome {
        PollOutcome::Idle => true,
        PollOutcome::ClaimFailed => {
            metrics.failed_claim();
            true
        },
        PollOutcome::Completed => {
            metrics.claimed();
            metrics.completed();
            false
        },
        PollOutcome::RetryScheduled => {
            metrics.claimed();
            metrics.retried();
            false
        },
        PollOutcome::DeadLettered => {
            metrics.claimed();
            metrics.dead_lettered();
            false
        },
        PollOutcome::CompletionFailed | PollOutcome::RetryFailed => {
            metrics.claimed();
            false
        },
    }
}

} // verus!
