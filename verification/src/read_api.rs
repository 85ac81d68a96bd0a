//! The read side of the API: listing rows, summaries and state labels.
use vstd::prelude::*;
use crate::text::{lower_char, to_lower_char, chars_of, string_from_chars};
use crate::ids::{uuid_text, uuid_hyphenated, parse_uuid, uuid_parse};
use crate::http_policy::ApiError;

verus! {

/// Whether `c` has the Unicode `Uppercase` property, as `char::is_uppercase` tells.
pub uninterp spec fn unicode_uppercase(c: char) -> bool;

/// `char::is_uppercase`.
///
/// Trusted: the result is std's Unicode `Uppercase` property of `c`; for ASCII
/// that is exactly `A`..=`Z`, which is stated.
#[verifier::external_body]
pub fn is_uppercase(c: char) -> (b: bool)
    ensures
        b == unicode_uppercase(c),
        ('A' <= c <= 'Z') ==> b,
        (c as u32) < 128 && !('A' <= c <= 'Z') ==> !b,
{
    c.is_uppercase()
}

/// The snake-case label of a state's debug name: an underscore before every
/// uppercase character but the first, and ASCII letters lowercased.
pub open spec fn snake_label(name: Seq<char>) -> Seq<char>
    decreases name.len(),
{
    if name.len() == 0 {
        Seq::empty()
    } else {
        let i = name.len() - 1;
        let c = name[i];
        let prefix = snake_label(name.drop_last());
        if unicode_uppercase(c) && i > 0 {
            prefix + seq!['_', lower_char(c)]
        } else {
            prefix.push(lower_char(c))
        }
    }
}

/// The stored label of a projection state, from its `Debug` name
/// (`NotLanded` becomes `not_landed`).
pub fn state_label(debug_name: &str) -> (label: String)
    ensures
        label@ == snake_label(debug_name@),
{
    let chars = chars_of(debug_name);
    let mut out: Vec<char> = Vec::new();
    let mut i: usize = 0;
    while i < chars.len()
        invariant
            chars@ == debug_name@,
            i <= chars@.len(),
            out@ == snake_label(chars@.subrange(0, i as int)),
        decreases chars@.len() - i,
    {
        let c = chars[i];
        if is_uppercase(c) && i > 0 {
            out.push('_');
        }
        out.push(to_lower_char(c));
        proof {
            let next = chars@.subrange(0, i + 1);
            assert(next.drop_last() == chars@.subrange(0, i as int));
            assert(next[i as int] == c);
        }
        i = i + 1;
    }
    assert(chars@.subrange(0, chars@.len() as int) == chars@);
    string_from_chars(&out)
}

/// One row of the trace listing.
#[derive(Debug, Clone, PartialEq, Eq)]
pub struct TraceListItem {
    pub trace_id: String,
    pub lifecycle_state: String,
    pub landing_state: String,
    pub execution_state: String,
    pub updated_at: String,
}

/// The query of the trace listing.
#[derive(Debug, Clone, Copy, PartialEq, Eq, Structural)]
pub struct TraceListQuery {
    pub limit: Option<u32>,
}

/// Trace counts of the last day.
#[derive(Debug, Clone, PartialEq, Eq)]
pub struct OverviewSummary {
    pub window_hours: u32,
    pub total_traces: i64,
    pub landed_traces: i64,
    pub successful_executions: i64,
    pub unknown_executions: i64,
    pub updated_at: String,
}

/// The overview of the last 24 hours, from the counted rows.
pub fn overview_summary(
    total_traces: i64,
    landed_traces: i64,
    successful_executions: i64,
    unknown_executions: i64,
    updated_at: String,
) -> (s: OverviewSummary)
    ensures
        s == (OverviewSummary {
            window_hours: 24,
            total_traces,
            landed_traces,
            successful_executions,
            unknown_executions,
            updated_at,
        }),
{
    OverviewSummary {
        window_hours: 24,
        total_traces,
        landed_traces,
        successful_executions,
        unknown_executions,
        updated_at,
    }
}

/// Health of one project's deployment.
#[derive(Debug, Clone, Copy, PartialEq, Eq)]
pub struct SystemHealthSummary {
    pub status: &'static str,
    pub database_ready: bool,
    pub projects: i64,
    pub environments: i64,
    pub enabled_routes: i64,
    pub queued_jobs: i64,
    pub dead_letter_jobs: i64,
    pub events_last_24h: i64,
}

/// A project is healthy when it exists, has an environment, and no job is
/// dead-lettered.
pub open spec fn project_healthy(projects: i64, environments: i64, dead_letter_jobs: i64) -> bool {
    projects > 0 && environments > 0 && dead_letter_jobs == 0
}

/// The health summary of a project from its counters.
pub fn system_health(
    projects: i64,
    environments: i64,
    enabled_routes: i64,
    queued_jobs: i64,
    dead_letter_jobs: i64,
    events_last_24h: i64,
) -> (s: SystemHealthSummary)
    ensures
        s.status@ == (if project_healthy(projects, environments, dead_letter_jobs) {
            "ok"@
        } else {
            "degraded"@
        }),
        s.database_ready,
        s.projects == projects,
        s.environments == environments,
        s.enabled_routes == enabled_routes,
        s.queued_jobs == queued_jobs,
        s.dead_letter_jobs == dead_letter_jobs,
        s.events_last_24h == events_last_24h,
{
    let status = if projects > 0 && environments > 0 && dead_letter_jobs == 0 {
        "ok"
    } else {
        "degraded"
    };
    SystemHealthSummary {
        status,
        database_ready: true,
        projects,
        environments,
        enabled_routes,
        queued_jobs,
        dead_letter_jobs,
        events_last_24h,
    }
}

/// Trace counts of one environment, most recently updated first.
#[derive(Debug, Clone, Copy, PartialEq, Eq, Structural)]
pub struct EnvironmentCounts {
    pub environment_id: u128,
    pub traces: i64,
    pub landed: i64,
}

/// The two most recently active environments side by side.
#[derive(Debug, Clone, PartialEq, Eq)]
pub struct ComparisonSummary {
    pub baseline_environment_id: String,
    pub candidate_environment_id: String,
    pub baseline_traces: i64,
    pub candidate_traces: i64,
    pub baseline_landed: i64,
    pub candidate_landed: i64,
}

/// Compares the two environments of `rows` (the most recent first): the older
/// is the baseline, the newer the candidate. Any other number of rows cannot
/// be compared.
pub fn comparison_summary(rows: &Vec<EnvironmentCounts>) -> (r: Result<ComparisonSummary, ApiError>)
    ensures
        rows@.len() == 2 ==> (r matches Ok(s) && s.baseline_environment_id@ == uuid_hyphenated(
            rows@[1].environment_id,
        ) && s.candidate_environment_id@ == uuid_hyphenated(rows@[0].environment_id)
            && s.baseline_traces == rows@[1].traces && s.candidate_traces == rows@[0].traces
            && s.baseline_landed == rows@[1].landed && s.candidate_landed == rows@[0].landed),
        rows@.len() != 2 ==> (r matches Err(e) && e.code@ == "insufficient_cohorts"@ && e.message@
            == "comparison requires traces in two environments"@),
{
    if rows.len() != 2 {
        return Err(
            ApiError {
                code: "insufficient_cohorts",
                message: "comparison requires traces in two environments",
            },
        );
    }
    Ok(
        ComparisonSummary {
            baseline_environment_id: uuid_text(rows[1].environment_id),
            candidate_environment_id: uuid_text(rows[0].environment_id),
            baseline_traces: rows[1].traces,
            candidate_traces: rows[0].traces,
            baseline_landed: rows[1].landed,
            candidate_landed: rows[0].landed,
        },
    )
}

/// The trace named in a request path, which must be a UUID.
pub fn trace_path_id(trace_id: &str) -> (r: Result<u128, ApiError>)
    ensures
        match uuid_parse(trace_id@) {
            Some(id) => r == Ok::<u128, ApiError>(id),
            None => r matches Err(e) && e.code@ == "invalid_trace_id"@ && e.message@
                == "trace_id must be a UUID"@,
        },
{
    match parse_uuid(trace_id) {
        Some(id) => Ok(id),
        None => Err(ApiError { code: "invalid_trace_id", message: "trace_id must be a UUID" }),
    }
}

} // verus!
