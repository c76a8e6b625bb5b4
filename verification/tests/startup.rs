use observability_lib::logging::{log_filter, reaches_log, Severity};
use observability_lib::metric::MetricKind;
use observability_lib::setup::{duration_buckets, metric_descriptions};
use tracing_subscriber::filter::{LevelFilter, Targets};

#[test]
fn log_filter_silences_error_signals() {
    let wanted = Targets::new()
        .with_target("metrics::signal", LevelFilter::OFF)
        .with_default(LevelFilter::ERROR);
    assert_eq!(log_filter(), wanted);
}

#[test]
fn only_errors_reach_the_log() {
    assert!(reaches_log("my_app::db", Severity::Error));
    assert!(reaches_log("", Severity::Error));
    assert!(!reaches_log("my_app::db", Severity::Warn));
    assert!(!reaches_log("my_app::db", Severity::Info));
    assert!(!reaches_log("my_app", Severity::Debug));
    assert!(!reaches_log("my_app", Severity::Trace));
}

#[test]
fn error_signals_never_reach_the_log() {
    assert!(!reaches_log("metrics::signal", Severity::Info));
    assert!(!reaches_log("metrics::signal", Severity::Error));
    assert!(!reaches_log("metrics::signal::inner", Severity::Error));
    assert!(reaches_log("metrics::signa", Severity::Error));
}

#[test]
fn buckets_are_hundreds_to_ten_thousand() {
    let bounds = duration_buckets();
    let wanted: Vec<u32> = (100..=10000).step_by(100).collect();
    assert_eq!(bounds, wanted);
}

#[test]
fn every_metric_is_described_once() {
    let descriptions = metric_descriptions();
    let shown: Vec<(MetricKind, &str, &str)> =
        descriptions.iter().map(|d| (d.kind, d.metric, d.text)).collect();
    assert_eq!(
        shown,
        vec![
            (MetricKind::Counter, "http_requests_total", "Total HTTP requests"),
            (MetricKind::Gauge, "http_requests_active", "Active connections"),
            (
                MetricKind::Histogram,
                "http_request_duration_seconds",
                "HTTP Latency (full body/stream duration)"
            ),
            (MetricKind::Histogram, "function_duration_seconds", "Internal Latency"),
            (MetricKind::Counter, "function_errors_total", "Internal Errors"),
            (
                MetricKind::Histogram,
                "external_request_duration_seconds_ms",
                "Outbound HTTP Latency"
            ),
            (
                MetricKind::Histogram,
                "external_stream_duration_seconds_ms",
                "Outbound Stream Duration"
            ),
            (
                MetricKind::Histogram,
                "external_stream_ttft_seconds_ms",
                "Time to first token for outbound streams"
            ),
            (
                MetricKind::Histogram,
                "websocket_session_duration_seconds_ms",
                "Duration of WebSocket sessions"
            ),
        ]
    );
}
