//! Deterministic fault-injection scenarios for resilience checks.
use vstd::prelude::*;

verus! {

/// Failure injected into one component during a resilience exercise.
#[derive(Debug, Clone, Copy, PartialEq, Eq, Structural)]
pub enum FailureKind {
    CollectorDown,
    DatabaseDown,
    ProjectorCrash,
    ObserverRateLimited,
    CorruptRpcResponse,
    DiskPressure,
    ReportWorkerCrash,
    RetentionFailure,
}

/// The non-destructive response required for an injected failure.
#[derive(Debug, Clone, Copy, PartialEq, Eq, Structural)]
pub enum SafeOutcome {
    Retryable,
    HaltWrites,
    Rehydrate,
    Quarantine,
    DryRunOnly,
}

/// The required response to each failure kind.
pub open spec fn outcome_of(failure: FailureKind) -> SafeOutcome {
    match failure {
        FailureKind::CollectorDown | FailureKind::ObserverRateLimited => SafeOutcome::Retryable,
        FailureKind::DatabaseDown | FailureKind::DiskPressure => SafeOutcome::HaltWrites,
        FailureKind::ProjectorCrash | FailureKind::ReportWorkerCrash => SafeOutcome::Rehydrate,
        FailureKind::CorruptRpcResponse => SafeOutcome::Quarantine,
        FailureKind::RetentionFailure => SafeOutcome::DryRunOnly,
    }
}

/// Maps an injected failure to the required non-destructive response.
pub fn expected_outcome(failure: FailureKind) -> (outcome: SafeOutcome)
    ensures
        outcome == outcome_of(failure),
{
    match failure {
        FailureKind::CollectorDown | FailureKind::ObserverRateLimited => SafeOutcome::Retryable,
        FailureKind::DatabaseDown | FailureKind::DiskPressure => SafeOutcome::HaltWrites,
        FailureKind::ProjectorCrash | FailureKind::ReportWorkerCrash => SafeOutcome::Rehydrate,
        FailureKind::CorruptRpcResponse => SafeOutcome::Quarantine,
        FailureKind::RetentionFailure => SafeOutcome::DryRunOnly,
    }
}

} // verus!
