//! Verified decision logic of the Landfall trace-observability server.
pub mod fault_injection;
pub mod text;
pub mod numeric;
pub mod etag;
pub mod pagination;
pub mod digest;
pub mod auth;
pub mod backup;
pub mod artifact_store;
pub mod job_recovery;
pub mod deletion;
pub mod recommendation_disposition;
pub mod json;
pub mod ids;
pub mod instant;
pub mod ingest;
pub mod http_policy;
pub mod read_api;
pub mod reports;
pub mod duration;
pub mod observation_worker;
pub mod control_plane;
pub mod secret_tokens;
pub mod accounts;
pub mod x402_payments;
pub mod secrets;
pub mod system_status;
pub mod metrics_endpoint;
pub mod metrics_summary;
pub mod signature_lookup;
pub mod trace_detail;
pub mod workload;
pub mod business_action;
pub mod sorting;
pub mod acknowledged_events;
pub mod config_read_model;
pub mod ranking;
pub mod query_benchmark;
pub mod dashboard_query_benchmark;
pub mod retention;
pub mod trace_filters;
pub mod log_safety;
pub mod export_safety;
pub mod fuzz_guards;
pub mod secret_matrix;
pub mod alias_resolver;
pub mod projection_metrics;
pub mod observability;
pub mod report_jobs;
pub mod benchmarks;
pub mod cohort_comparison;
pub mod data_quality_summary;
