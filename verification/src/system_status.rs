//! The authenticated, redacted system-status read model.
use vstd::prelude::*;
use crate::auth::{ApiTokenRecord, AuthError, Timestamp, authorize, authorization, opt_view};

verus! {

/// The snapshot that health probes and workers supply.
#[derive(Debug, Clone, PartialEq, Eq)]
pub struct SystemStatusSnapshot {
    pub database_ready: bool,
    pub queue_depth: u64,
    pub projection_lag_seconds: u64,
    pub observer_routes: u32,
    pub unhealthy_observer_routes: u32,
    pub schema_version: String,
    pub rule_set_version: String,
    pub retention_days: u32,
}

/// Overall status derived from dependency health.
#[derive(Debug, Clone, Copy, PartialEq, Eq, Structural)]
pub enum Status {
    Operational,
    Degraded,
}

/// Component-level status shown to an administrator; it holds no secret.
#[derive(Debug, Clone, PartialEq, Eq)]
pub struct DetailedSystemStatus {
    pub status: Status,
    pub database_ready: bool,
    pub queue_depth: u64,
    pub projection_lag_seconds: u64,
    pub observer_routes: u32,
    pub unhealthy_observer_routes: u32,
    pub schema_version: String,
    pub rule_set_version: String,
    pub retention_days: u32,
}

/// The system is degraded when its database is not ready or an observer
/// route is unhealthy.
pub open spec fn degraded(snapshot: SystemStatusSnapshot) -> bool {
    !snapshot.database_ready || snapshot.unhealthy_observer_routes > 0
}

/// Authorizes the caller for `system:read` and builds the detailed status.
pub fn authenticated_status(
    authorization_header: Option<&str>,
    records: &[ApiTokenRecord],
    now: Timestamp,
    snapshot: SystemStatusSnapshot,
) -> (r: Result<DetailedSystemStatus, AuthError>)
    ensures
        match authorization(opt_view(authorization_header), records@, "system:read"@, now.unix_nanos as int) {
            Err(e) => r == Err::<DetailedSystemStatus, AuthError>(e),
            Ok(_) => r matches Ok(s) && s.status == (if degraded(snapshot) {
                Status::Degraded
            } else {
                Status::Operational
            }) && s.database_ready == snapshot.database_ready && s.queue_depth == snapshot.queue_depth
                && s.projection_lag_seconds == snapshot.projection_lag_seconds && s.observer_routes
                == snapshot.observer_routes && s.unhealthy_observer_routes
                == snapshot.unhealthy_observer_routes && s.schema_version == snapshot.schema_version
                && s.rule_set_version == snapshot.rule_set_version && s.retention_days
                == snapshot.retention_days,
        },
{
    match authorize(authorization_header, records, "system:read", now) {
        Err(e) => Err(e),
        Ok(_) => {
            let is_degraded = !snapshot.database_ready || snapshot.unhealthy_observer_routes > 0;
            Ok(
                DetailedSystemStatus {
                    status: if is_degraded {
                        Status::Degraded
                    } else {
                        Status::Operational
                    },
                    database_ready: snapshot.database_ready,
                    queue_depth: snapshot.queue_depth,
                    projection_lag_seconds: snapshot.projection_lag_seconds,
                    observer_routes: snapshot.observer_routes,
                    unhealthy_observer_routes: snapshot.unhealthy_observer_routes,
                    schema_version: snapshot.schema_version,
                    rule_set_version: snapshot.rule_set_version,
                    retention_days: snapshot.retention_days,
                },
            )
        },
    }
}

} // verus!
