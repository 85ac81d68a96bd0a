//! Validation of trace-listing filters: RFC 3339 bounds at most 31 days apart.
use vstd::prelude::*;
use crate::instant::{OffsetInstant, parse_rfc3339, rfc3339_parse, well_ranged};
use crate::control_plane::string_view;

verus! {

/// The longest listing window: 31 days, in nanoseconds.
pub const MAX_FILTER_RANGE_NANOS: i128 = 31 * 86_400 * 1_000_000_000;

/// A trace-listing filter as the caller wrote it.
#[derive(Debug, Clone, PartialEq, Eq)]
pub struct TraceListFilter {
    pub project_id: Option<String>,
    pub environment_id: Option<String>,
    pub status: Option<String>,
    pub from: Option<String>,
    pub to: Option<String>,
}

impl Default for TraceListFilter {
    fn default() -> (f: Self)
        ensures
            f.project_id is None,
            f.environment_id is None,
            f.status is None,
            f.from is None,
            f.to is None,
    {
        TraceListFilter { project_id: None, environment_id: None, status: None, from: None, to: None }
    }
}

/// Why a filter was refused.
#[derive(Debug, Clone, Copy, PartialEq, Eq, Structural)]
pub enum TraceFilterError {
    InvalidTimestamp,
    InvalidRange,
}

impl TraceFilterError {
    /// The explanation of the refusal.
    pub fn message(&self) -> (m: &'static str)
        ensures
            m@ == match self {
                TraceFilterError::InvalidTimestamp => "invalid timestamp"@,
                TraceFilterError::InvalidRange => "time range must be non-negative and at most 31 days"@,
            },
    {
        match self {
            TraceFilterError::InvalidTimestamp => "invalid timestamp",
            TraceFilterError::InvalidRange => "time range must be non-negative and at most 31 days",
        }
    }
}

/// A filter whose bounds are parsed instants.
#[derive(Debug, Clone, PartialEq, Eq)]
pub struct ValidatedTraceFilter {
    pub project_id: Option<String>,
    pub environment_id: Option<String>,
    pub status: Option<String>,
    pub from: Option<OffsetInstant>,
    pub to: Option<OffsetInstant>,
}

/// A bound parses when it is absent or valid RFC 3339.
pub open spec fn bound_parses(text: Option<Seq<char>>) -> bool {
    match text {
        Some(t) => rfc3339_parse(t) is Some,
        None => true,
    }
}

/// The instant of a parsed bound.
pub open spec fn bound_nanos(text: Option<Seq<char>>) -> Option<i128> {
    match text {
        Some(t) => match rfc3339_parse(t) {
            Some(p) => Some(p.0),
            None => None,
        },
        None => None,
    }
}

/// The parsed instant matches what the bound's text says.
pub open spec fn bound_matches(parsed: Option<OffsetInstant>, text: Option<Seq<char>>) -> bool {
    match text {
        Some(t) => parsed matches Some(p) && rfc3339_parse(t) == Some((p.unix_nanos, p.offset_seconds)),
        None => parsed is None,
    }
}

fn parse_bound(text: &Option<String>) -> (r: Result<Option<OffsetInstant>, TraceFilterError>)
    ensures
        r is Ok <==> bound_parses(string_view(*text)),
        r is Err ==> r == Err::<Option<OffsetInstant>, TraceFilterError>(TraceFilterError::InvalidTimestamp),
        r matches Ok(p) ==> bound_matches(p, string_view(*text)) && (p matches Some(v) ==> well_ranged(v)),
{
    match text {
        Some(t) => match parse_rfc3339(t.as_str()) {
            Some(v) => Ok(Some(v)),
            None => Err(TraceFilterError::InvalidTimestamp),
        },
        None => Ok(None),
    }
}

/// Validates a trace filter: both bounds must parse, and when both are
/// given the window must run forward and span at most 31 days.
pub fn validate_trace_filter(filter: TraceListFilter) -> (r: Result<ValidatedTraceFilter, TraceFilterError>)
    ensures
        !(bound_parses(string_view(filter.from)) && bound_parses(string_view(filter.to))) ==> r == Err::<
            ValidatedTraceFilter,
            TraceFilterError,
        >(TraceFilterError::InvalidTimestamp),
        bound_parses(string_view(filter.from)) && bound_parses(string_view(filter.to)) ==> match (
            bound_nanos(string_view(filter.from)),
            bound_nanos(string_view(filter.to)),
        ) {
            (Some(from), Some(to)) if to < from || to - from > MAX_FILTER_RANGE_NANOS => r == Err::<
                ValidatedTraceFilter,
                TraceFilterError,
            >(TraceFilterError::InvalidRange),
            _ => r matches Ok(v) && v.project_id == filter.project_id && v.environment_id
                == filter.environment_id && v.status == filter.status && bound_matches(
                v.from,
                string_view(filter.from),
            ) && bound_matches(v.to, string_view(filter.to)),
        },
{
    let from = parse_bound(&filter.from)?;
    let to = parse_bound(&filter.to)?;
    match (from, to) {
        (Some(f), Some(t)) => {
            if t.unix_nanos < f.unix_nanos || t.unix_nanos - f.unix_nanos > MAX_FILTER_RANGE_NANOS {
                return Err(TraceFilterError::InvalidRange);
            }
        },
        _ => {},
    }
    Ok(
        ValidatedTraceFilter {
            project_id: filter.project_id,
            environment_id: filter.environment_id,
            status: filter.status,
            from,
            to,
        },
    )
}

} // verus!
