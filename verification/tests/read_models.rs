use landfall_server::alias_resolver::{AliasResolution, AliasResolver};
use landfall_server::business_action::build_business_action_detail;
use landfall_server::config_read_model::{project_config, EnvironmentConfig, RouteConfig};
use landfall_server::dashboard_query_benchmark::summarize_dashboard_queries;
use landfall_server::data_quality_summary::{summarize_data_quality, AssessmentFacts, DataQualityGrade};
use landfall_server::metrics_endpoint::{render, DurableMetrics};
use landfall_server::metrics_summary::{summarize_metric, MetricRow};
use landfall_server::observability::ProcessRole;
use landfall_server::projection_metrics::ProjectionMetrics;
use landfall_server::query_benchmark::summarize_query_latency;
use landfall_server::signature_lookup::{lookup_signature, SignatureLookupError, SignatureLookupMode};
use landfall_server::trace_detail::TraceDetail;
use landfall_server::workload::{burst_event_count, generate_traces, SyntheticOutcome};

#[test]
fn multiple_successes_are_explicitly_flagged() {
    let detail = build_business_action_detail("action-1", Some("checkout".into()), vec!["trace-1".into(), "trace-2".into()], 2);
    assert!(detail.multiple_success_warning);
    assert_eq!(detail.trace_ids.len(), 2);
    assert!(!build_business_action_detail("action-2", None, vec!["trace".into()], 1).multiple_success_warning);
}

#[test]
fn snapshot_is_sorted_and_redacted() {
    let snapshot = project_config(
        "project-1",
        "Demo",
        vec![EnvironmentConfig {
            environment_id: "prod".into(),
            display_name: "Production".into(),
            privacy_mode: "strict".into(),
            routes: vec![
                RouteConfig { route_id: "zeta".into(), label: "Zeta RPC".into(), enabled: true, commitment: "confirmed".into(), auth_configured: true },
                RouteConfig { route_id: "alpha".into(), label: "Alpha RPC".into(), enabled: false, commitment: "finalized".into(), auth_configured: false },
            ],
        }],
    );
    assert_eq!(snapshot.environments[0].routes[0].route_id, "alpha");
    let rendered = format!("{:?}", snapshot);
    assert!(!rendered.contains("endpoint"));
    assert!(!rendered.contains("token"));
}

#[test]
fn environments_are_sorted_and_keep_their_routes() {
    let env = |id: &str, routes: Vec<&str>| EnvironmentConfig {
        environment_id: id.into(),
        display_name: id.to_uppercase(),
        privacy_mode: "standard".into(),
        routes: routes
            .into_iter()
            .map(|r| RouteConfig { route_id: r.into(), label: r.into(), enabled: true, commitment: "confirmed".into(), auth_configured: false })
            .collect(),
    };
    let snapshot = project_config("p", "P", vec![env("staging", vec!["b", "a"]), env("dev", vec!["c"])]);
    assert_eq!(snapshot.environments[0].environment_id, "dev");
    assert_eq!(snapshot.environments[1].display_name, "STAGING");
    assert_eq!(snapshot.environments[1].routes[0].route_id, "a");
    assert_eq!(snapshot.environments[1].routes[1].route_id, "b");
}

#[test]
fn keeps_overview_and_comparison_percentiles_separate() {
    let result = summarize_dashboard_queries((1..=20).collect(), (100..=119).collect());
    assert_eq!(result.overview.unwrap().p95_us, 19);
    assert_eq!(result.comparison.unwrap().p95_us, 118);
    assert!(summarize_dashboard_queries(Vec::new(), vec![1]).overview.is_none());
}

#[test]
fn computes_trace_detail_percentiles_deterministically() {
    let result = summarize_query_latency((1..=100).collect()).unwrap();
    assert_eq!(result.samples, 100);
    assert_eq!(result.p50_us, 50);
    assert_eq!(result.p95_us, 95);
    assert_eq!(result.max_us, 100);
    assert!(summarize_query_latency(Vec::new()).is_none());
}

#[test]
fn percentiles_do_not_depend_on_sample_order() {
    let result = summarize_query_latency(vec![9, 1, 5, 3, 7]).unwrap();
    assert_eq!(result.p50_us, 5);
    assert_eq!(result.p95_us, 7);
    assert_eq!(result.max_us, 9);
}

#[test]
fn empty_summary_is_explicit() {
    let summary = summarize_data_quality(&vec![], "dq-v1");
    assert_eq!(summary.assessments, 0);
    assert_eq!(summary.average_score, None);
    assert_eq!(summary.grades.len(), 5);
    assert!(summary.gaps.is_empty());
}

#[test]
fn data_quality_counts_grades_gaps_and_average() {
    let facts = |score: u8, grade: DataQualityGrade, keys: Vec<&str>| AssessmentFacts {
        score,
        grade,
        finding_keys: keys.into_iter().map(String::from).collect(),
    };
    let summary = summarize_data_quality(
        &vec![
            facts(90, DataQualityGrade::A, vec!["missing_retry_source"]),
            facts(51, DataQualityGrade::D, vec!["missing_submission_response", "missing_retry_source"]),
            facts(60, DataQualityGrade::D, vec![]),
        ],
        "dq-v1",
    );
    assert_eq!(summary.assessments, 3);
    assert_eq!(summary.average_score, Some(67));
    let grades: Vec<(char, u64)> = summary.grades.iter().map(|g| (g.grade, g.count)).collect();
    assert_eq!(grades, vec![('A', 1), ('B', 0), ('C', 0), ('D', 2), ('F', 0)]);
    let gaps: Vec<(&str, u64)> = summary.gaps.iter().map(|g| (g.gap.as_str(), g.count)).collect();
    assert_eq!(gaps, vec![("missing_retry_source", 2), ("missing_submission_response", 1)]);
    assert_eq!(summary.definition_version, "dq-v1");
}

#[test]
fn metrics_are_prometheus_text_and_omit_customer_values() {
    let text = render(
        true,
        Some(DurableMetrics { projects: 1, environments: 2, enabled_routes: 3, ready_jobs: 4, running_jobs: 5, dead_letter_jobs: 6, events_last_24h: 7 }),
    );
    assert!(text.contains("# TYPE landfall_jobs gauge"));
    assert!(text.contains("landfall_jobs{state=\"dead_letter\"} 6"));
    assert!(text.contains("landfall_process_ready 1"));
    assert!(!text.contains("endpoint"));
    assert!(!text.contains("token"));
}

#[test]
fn unavailable_database_is_explicit() {
    let text = render(true, None);
    assert!(text.contains("landfall_database_up 0"));
    assert!(text.contains("landfall_process_ready 0"));
}

#[test]
fn negative_gauges_render_with_a_sign() {
    let text = render(false, Some(DurableMetrics { projects: -3, environments: 0, enabled_routes: 0, ready_jobs: 0, running_jobs: 0, dead_letter_jobs: 0, events_last_24h: 0 }));
    assert!(text.contains("landfall_projects -3\n"));
    assert!(text.contains("landfall_database_up 1\n"));
    assert!(text.contains("landfall_process_ready 0\n"));
}

#[test]
fn denominator_excludes_in_flight_and_unknown_rows() {
    let summary = summarize_metric(
        &[
            MetricRow { terminal_eligible: true, success: true, in_flight: false, unknown: false },
            MetricRow { terminal_eligible: true, success: false, in_flight: false, unknown: false },
            MetricRow { terminal_eligible: false, success: false, in_flight: true, unknown: false },
            MetricRow { terminal_eligible: true, success: false, in_flight: false, unknown: true },
        ],
        "metric-v1",
    );
    assert_eq!(summary.numerator, 1);
    assert_eq!(summary.denominator, 2);
    assert_eq!(summary.excluded_in_flight, 1);
    assert_eq!(summary.excluded_unknown, 1);
    assert_eq!(summary.definition_version, "metric-v1");
}

#[test]
fn roles_have_stable_machine_labels() {
    assert_eq!(ProcessRole::Server.label(), "server");
    assert_eq!(ProcessRole::ObserverWorker.label(), "observer-worker");
}

#[test]
fn snapshot_tracks_projection_and_dead_job_signals() {
    let mut metrics = ProjectionMetrics::new();
    metrics.record_projected();
    metrics.record_failed();
    metrics.record_dead();
    metrics.set_lag_millis(42);
    assert_eq!(metrics.snapshot().projected_total, 1);
    assert_eq!(metrics.snapshot().dead_total, 1);
    assert_eq!(metrics.snapshot().lag_millis, 42);
    assert_eq!(metrics.snapshot().failed_total, 1);
}

#[test]
fn strict_mode_disables_lookup_and_other_modes_omit_log_contents() {
    assert_eq!(
        lookup_signature(SignatureLookupMode::Strict, "sig", Some("confirmed"), true),
        Err(SignatureLookupError::DisabledInStrictMode)
    );
    let result = lookup_signature(SignatureLookupMode::Standard, " sig ", Some("confirmed"), true).expect("lookup");
    assert_eq!(result.signature, "sig");
    assert_eq!(result.status.as_deref(), Some("confirmed"));
    assert!(result.logs_present);
    assert_eq!(lookup_signature(SignatureLookupMode::Strict, "  ", None, false), Err(SignatureLookupError::EmptySignature));
}

#[test]
fn trace_detail_keeps_all_read_model_sections() {
    let mut detail = TraceDetail::<String, String, String, String>::new("trace-1", 42);
    detail.attempts.push("attempt".into());
    detail.observations.push("observation".into());
    detail.evidence.push("evidence".into());
    detail.recommendations.push("recommendation".into());
    assert_eq!(detail.projection_watermark, 42);
    assert_eq!(detail.attempts.len(), 1);
    assert_eq!(detail.observations.len(), 1);
    assert_eq!(detail.evidence.len(), 1);
    assert_eq!(detail.recommendations.len(), 1);
}

#[test]
fn generator_is_repeatable_and_covers_mixed_dimensions() {
    let first = generate_traces(1_000, 7);
    assert_eq!(first, generate_traces(1_000, 7));
    assert_eq!(first.len(), 1_000);
    assert!(first.iter().any(|trace| trace.outcome == SyntheticOutcome::Expired));
    assert!(first.iter().any(|trace| trace.outcome == SyntheticOutcome::ExecutionError));
    assert!(first.iter().any(|trace| trace.route_index > 0));
    assert_eq!(burst_event_count(500), 500);
}

#[test]
fn generator_dimensions_follow_the_seed() {
    let traces = generate_traces(3, u64::MAX);
    assert_eq!(traces[0].event_count, 8 + (u64::MAX % 9) as u8);
    assert_eq!(traces[1].trace_index, 1);
    assert_eq!(traces[1].outcome, SyntheticOutcome::Success);
    assert_eq!(traces[1].event_count, 8);
    assert_eq!(traces[2].route_index, 1);
}

#[test]
fn aliases_are_scoped_and_deterministic() {
    let project = uuid::Uuid::now_v7().as_u128();
    let environment = uuid::Uuid::now_v7().as_u128();
    let first = uuid::Uuid::now_v7().as_u128();
    let second = uuid::Uuid::now_v7().as_u128();
    let mut resolver = AliasResolver::new();
    assert_eq!(resolver.observe(project, environment, first, "k1", "digest"), AliasResolution::Unrelated);
    assert_eq!(resolver.observe(project, environment, second, "k1", "digest"), AliasResolution::Canonical(first));
    assert_eq!(resolver.observe(project, uuid::Uuid::now_v7().as_u128(), second, "k1", "digest"), AliasResolution::Unrelated);
}
