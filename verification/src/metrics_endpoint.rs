//! Prometheus exposition of durable operational state.
use vstd::prelude::*;
use crate::numeric::{signed_decimal, push_signed_decimal};
use crate::text::{push_text, owned};

verus! {

/// Values sampled from durable storage once per scrape.
#[derive(Debug, Clone, Copy, PartialEq, Eq, Structural)]
pub struct DurableMetrics {
    pub projects: i64,
    pub environments: i64,
    pub enabled_routes: i64,
    pub ready_jobs: i64,
    pub running_jobs: i64,
    pub dead_letter_jobs: i64,
    pub events_last_24h: i64,
}

/// The exposition head, up to the database gauge's value.
pub open spec fn exposition_head() -> Seq<char> {
    "# HELP landfall_build_info Immutable build identity.\n# TYPE landfall_build_info gauge\nlandfall_build_info{version=\"0.1.0\"} 1\n# HELP landfall_database_up Whether the server can query PostgreSQL.\n# TYPE landfall_database_up gauge\nlandfall_database_up "@
}

/// The text between the database gauge and the readiness gauge's value.
pub open spec fn readiness_head() -> Seq<char> {
    "\n# HELP landfall_process_ready Whether this server instance is ready.\n# TYPE landfall_process_ready gauge\nlandfall_process_ready "@
}

/// The durable gauges, each with its help and type lines.
pub open spec fn durable_section(v: DurableMetrics) -> Seq<char> {
    "# HELP landfall_projects Total configured projects.\n# TYPE landfall_projects gauge\nlandfall_projects "@
        + signed_decimal(v.projects as int)
        + "\n# HELP landfall_environments Total configured environments.\n# TYPE landfall_environments gauge\nlandfall_environments "@
        + signed_decimal(v.environments as int)
        + "\n# HELP landfall_enabled_rpc_routes Total enabled observation routes.\n# TYPE landfall_enabled_rpc_routes gauge\nlandfall_enabled_rpc_routes "@
        + signed_decimal(v.enabled_routes as int)
        + "\n# HELP landfall_jobs Current durable jobs by state.\n# TYPE landfall_jobs gauge\nlandfall_jobs{state=\"ready\"} "@
        + signed_decimal(v.ready_jobs as int) + "\nlandfall_jobs{state=\"running\"} "@ + signed_decimal(
        v.running_jobs as int,
    ) + "\nlandfall_jobs{state=\"dead_letter\"} "@ + signed_decimal(v.dead_letter_jobs as int)
        + "\n# HELP landfall_events_received_24h Events durably received in the trailing 24 hours.\n# TYPE landfall_events_received_24h gauge\nlandfall_events_received_24h "@
        + signed_decimal(v.events_last_24h as int) + "\n"@
}

/// The whole exposition: the database is up when durable values were read,
/// and the process is ready only when it is ready and the database is up.
pub open spec fn exposition(ready: bool, durable: Option<DurableMetrics>) -> Seq<char> {
    let database_up: int = if durable is Some { 1 } else { 0 };
    let process_ready: int = if ready && durable is Some { 1 } else { 0 };
    exposition_head() + signed_decimal(database_up) + readiness_head() + signed_decimal(process_ready)
        + "\n"@ + match durable {
        Some(v) => durable_section(v),
        None => Seq::empty(),
    }
}

/// Renders the Prometheus text exposition; it carries no customer or
/// credential data.
pub fn render(ready: bool, durable: Option<DurableMetrics>) -> (text: String)
    ensures
        text@ == exposition(ready, durable),
{
    let database_up: i64 = if durable.is_some() { 1 } else { 0 };
    let process_ready: i64 = if ready && durable.is_some() { 1 } else { 0 };
    let mut out = owned(
        "# HELP landfall_build_info Immutable build identity.\n# TYPE landfall_build_info gauge\nlandfall_build_info{version=\"0.1.0\"} 1\n# HELP landfall_database_up Whether the server can query PostgreSQL.\n# TYPE landfall_database_up gauge\nlandfall_database_up ",
    );
    push_signed_decimal(&mut out, database_up);
    push_text(
        &mut out,
        "\n# HELP landfall_process_ready Whether this server instance is ready.\n# TYPE landfall_process_ready gauge\nlandfall_process_ready ",
    );
    push_signed_decimal(&mut out, process_ready);
    push_text(&mut out, "\n");
    let ghost before = out@;
    match durable {
        Some(v) => {
            push_text(
                &mut out,
                "# HELP landfall_projects Total configured projects.\n# TYPE landfall_projects gauge\nlandfall_projects ",
            );
            push_signed_decimal(&mut out, v.projects);
            push_text(
                &mut out,
                "\n# HELP landfall_environments Total configured environments.\n# TYPE landfall_environments gauge\nlandfall_environments ",
            );
            push_signed_decimal(&mut out, v.environments);
            push_text(
                &mut out,
                "\n# HELP landfall_enabled_rpc_routes Total enabled observation routes.\n# TYPE landfall_enabled_rpc_routes gauge\nlandfall_enabled_rpc_routes ",
            );
            push_signed_decimal(&mut out, v.enabled_routes);
            push_text(
                &mut out,
                "\n# HELP landfall_jobs Current durable jobs by state.\n# TYPE landfall_jobs gauge\nlandfall_jobs{state=\"ready\"} ",
            );
            push_signed_decimal(&mut out, v.ready_jobs);
            push_text(&mut out, "\nlandfall_jobs{state=\"running\"} ");
            push_signed_decimal(&mut out, v.running_jobs);
            push_text(&mut out, "\nlandfall_jobs{state=\"dead_letter\"} ");
            push_signed_decimal(&mut out, v.dead_letter_jobs);
            push_text(
                &mut out,
                "\n# HELP landfall_events_received_24h Events durably received in the trailing 24 hours.\n# TYPE landfall_events_received_24h gauge\nlandfall_events_received_24h ",
            );
            push_signed_decimal(&mut out, v.events_last_24h);
            push_text(&mut out, "\n");
            assert(out@ == before + durable_section(v));
        },
        None => {
            assert(out@ == before + Seq::<char>::empty());
        },
    }
    out
}

} // verus!
