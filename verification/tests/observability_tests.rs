use std::sync::Arc;
use upp_gateway::observability::{
    cache_check, combine_status, providers_check, redis_check, render_metrics, HealthCheck, MetricValues,
    PrometheusMetrics, TracingConfig,
};

#[test]
fn test_prometheus_metrics_creation() {
    let metrics = PrometheusMetrics::new();
    assert_eq!(metrics.values().requests_total, 0);
    assert_eq!(metrics.values().ws_messages_total, 0);
}

#[test]
fn test_record_request() {
    let mut metrics = PrometheusMetrics::new();
    metrics.record_request("GET", "/health", 200, 10_500);
    assert_eq!(metrics.values().requests_total, 1);
}

#[test]
fn test_ws_connections() {
    let metrics = PrometheusMetrics::new();
    metrics.increment_ws_connections();
    assert_eq!(metrics.values().active_ws_connections, 1);
    metrics.decrement_ws_connections();
    assert_eq!(metrics.values().active_ws_connections, 0);
}

#[test]
fn test_health_check() {
    let metrics = Arc::new(PrometheusMetrics::new());
    let health = HealthCheck::new(metrics);
    let liveness = health.liveness();
    assert_eq!(liveness.status, "healthy");
}

#[test]
fn tracing_defaults() {
    let c = TracingConfig::default();
    assert_eq!(c.format, "json");
    assert_eq!(c.level, "info");
    assert!(c.enable_otlp);
    assert_eq!(c.otlp_endpoint, "http://localhost:4317");
    assert!(c.module_levels.is_none());
}

fn zero_values() -> MetricValues {
    MetricValues {
        requests_total: 3,
        ws_messages_total: 0,
        provider_requests_total: 0,
        active_ws_connections: 0,
        cache_size: 0,
        connected_providers: 2,
    }
}

#[test]
fn exposition_lists_counters_then_histograms() {
    let text = render_metrics(zero_values(), &vec![]);
    assert!(text.starts_with("# HELP requests_total Total HTTP requests\n# TYPE requests_total counter\nrequests_total 3\n"));
    assert!(text.contains("connected_providers 2\n"));
    assert!(text.ends_with("# HELP request_duration_seconds Request latency in seconds\n# TYPE request_duration_seconds histogram\n"));
}

#[test]
fn histogram_buckets_and_sum() {
    let samples = vec![500u64, 10_500, 2_000_000];
    let text = render_metrics(zero_values(), &vec![("GET_/health".to_string(), samples)]);
    let expected = "request_duration_seconds_bucket{path=\"GET_/health\",le=\"0.001\"} 1\n\
request_duration_seconds_bucket{path=\"GET_/health\",le=\"0.01\"} 1\n\
request_duration_seconds_bucket{path=\"GET_/health\",le=\"0.1\"} 2\n\
request_duration_seconds_bucket{path=\"GET_/health\",le=\"1.0\"} 2\n\
request_duration_seconds_bucket{path=\"GET_/health\",le=\"+Inf\"} 3\n\
request_duration_seconds_count{path=\"GET_/health\"} 3\n\
request_duration_seconds_sum{path=\"GET_/health\"} 2.011\n";
    assert!(text.ends_with(expected), "{}", text);
}

#[test]
fn whole_second_sum_has_no_point() {
    let text = render_metrics(zero_values(), &vec![("k".to_string(), vec![2_000_000u64])]);
    assert!(text.ends_with("request_duration_seconds_sum{path=\"k\"} 2\n"), "{}", text);
}

#[test]
fn path_without_samples_is_left_out() {
    let text = render_metrics(zero_values(), &vec![("k".to_string(), vec![])]);
    assert!(!text.contains("path=\"k\""));
}

#[test]
fn recorded_requests_show_in_the_histogram() {
    let mut metrics = PrometheusMetrics::new();
    metrics.record_request("GET", "/markets", 200, 1_000);
    metrics.record_request("GET", "/markets", 200, 3_000);
    let text = metrics.metrics_handler();
    assert!(text.contains("request_duration_seconds_count{path=\"GET_/markets\"} 2\n"), "{}", text);
    assert!(text.contains("request_duration_seconds_sum{path=\"GET_/markets\"} 0.004\n"), "{}", text);
    assert!(text.contains("requests_total 2\n"));
}

#[test]
fn overall_status_takes_the_worst() {
    assert_eq!(combine_status("ok", "ok", "ok"), "healthy");
    assert_eq!(combine_status("ok", "warning", "ok"), "degraded");
    assert_eq!(combine_status("warning", "error", "ok"), "unhealthy");
}

#[test]
fn individual_checks() {
    let p = providers_check(3);
    assert_eq!(p.status, "ok");
    assert_eq!(p.message, "3 providers connected");
    let p = providers_check(0);
    assert_eq!(p.status, "warning");
    assert_eq!(p.message, "No providers connected");
    let c = cache_check(1024);
    assert_eq!(c.message, "Cache size: 1024 bytes");
    let r = redis_check();
    assert_eq!(r.latency_us, Some(1_500));
}

#[test]
fn readiness_degrades_without_providers() {
    let metrics = Arc::new(PrometheusMetrics::new());
    let health = HealthCheck::new(metrics.clone());
    assert_eq!(health.readiness().status, "degraded");
    metrics.set_connected_providers(2);
    let r = health.readiness();
    assert_eq!(r.status, "healthy");
    assert_eq!(r.checks.providers.message, "2 providers connected");
}
