use observability_lib::metric::{Change, Update};
use observability_lib::spans::{on_close, on_event, on_new_span, ScopeSpan, ServiceExtractor};
use observability_lib::Trackable;

fn declaring(service: &str) -> ServiceExtractor {
    let mut fields = ServiceExtractor::default();
    fields.record_str("service", service);
    fields
}

fn labels(update: &Update) -> Vec<(&'static str, &str)> {
    update.labels.iter().map(|l| (l.key, l.value.as_str())).collect()
}

fn span(name: &'static str, service: Option<&str>) -> ScopeSpan {
    ScopeSpan { name, service: service.map(|s| s.to_string()) }
}

#[test]
fn last_service_field_names_the_service() {
    let mut fields = ServiceExtractor::default();
    fields.record_str("user", "ann");
    fields.record_debug("service", "Some(1)");
    fields.record_str("service", "payment");
    fields.record_debug("other", "x");
    let record = on_new_span(fields, None, 0);
    assert_eq!(record.service(), Some("payment".to_string()));
    assert!(ServiceExtractor::wants("service"));
    assert!(!ServiceExtractor::wants("services"));
}

#[test]
fn debug_rendering_is_taken_as_it_is() {
    let mut fields = ServiceExtractor::default();
    fields.record_debug("service", "\"quoted\"");
    assert_eq!(on_new_span(fields, None, 0).service(), Some("\"quoted\"".to_string()));
}

#[test]
fn spans_inherit_the_nearest_service() {
    let outer = on_new_span(declaring("payment"), None, 0);
    let middle = on_new_span(ServiceExtractor::default(), Some(&outer), 1);
    let inner = on_new_span(ServiceExtractor::default(), Some(&middle), 2);
    let other = on_new_span(declaring("mail"), Some(&inner), 3);
    assert_eq!(inner.service(), Some("payment".to_string()));
    assert_eq!(other.service(), Some("mail".to_string()));
    assert_eq!(on_new_span(ServiceExtractor::default(), None, 0).service(), None);
}

#[test]
fn closing_functions_report_their_duration() {
    let record = on_new_span(declaring("payment"), None, 1_000_000);
    let update = on_close("charge", Some(&record), 43_000_000).unwrap();
    assert_eq!(update.metric, "function_duration_seconds");
    assert_eq!(labels(&update), vec![("function", "charge"), ("service", "payment")]);
    assert_eq!(update.change, Change::Observe(42));
    let anonymous = on_new_span(ServiceExtractor::default(), None, 0);
    let update = on_close("charge", Some(&anonymous), 0).unwrap();
    assert_eq!(labels(&update), vec![("function", "charge"), ("service", "unknown")]);
}

#[test]
fn context_spans_report_nothing() {
    let record = on_new_span(declaring("payment"), None, 0);
    assert!(on_close("request", Some(&record), 5).is_none());
    assert!(on_close("svc_ctx", Some(&record), 5).is_none());
    assert!(on_close("charge", None, 5).is_none());
    assert!(on_close("requests", Some(&record), 5).is_some());
}

#[test]
fn errors_are_put_down_to_the_innermost_function() {
    let scope = vec![
        span("request", None),
        span("svc_ctx", Some("orders")),
        span("create_order", Some("orders")),
        span("email_user", None),
        span("svc_ctx", None),
    ];
    let update = on_event("metrics::signal", &scope).unwrap();
    assert_eq!(update.metric, "function_errors_total");
    assert_eq!(labels(&update), vec![("service", "orders"), ("function", "email_user")]);
    assert_eq!(update.change, Change::Count);
}

#[test]
fn errors_without_function_or_service() {
    let scope = vec![span("request", None), span("svc_ctx", None)];
    let update = on_event("metrics::signal", &scope).unwrap();
    assert_eq!(labels(&update), vec![("service", "unknown"), ("function", "svc_ctx")]);
}

#[test]
fn innermost_service_wins() {
    let scope = vec![span("a", Some("outer")), span("b", Some("inner")), span("c", None)];
    let update = on_event("metrics::signal", &scope).unwrap();
    assert_eq!(labels(&update), vec![("service", "inner"), ("function", "c")]);
}

#[test]
fn other_events_report_nothing() {
    let scope = vec![span("a", Some("s"))];
    assert!(on_event("metrics::signals", &scope).is_none());
    assert!(on_event("my_app", &scope).is_none());
    assert!(on_event("my_app", &Vec::new()).is_none());
}

#[test]
fn errors_outside_all_spans_are_counted() {
    let failed: Result<u8, &str> = Err("no");
    let (_, signal) = failed.track();
    let update = on_event(signal.unwrap().target, &Vec::new()).unwrap();
    assert_eq!(update.metric, "function_errors_total");
    assert_eq!(labels(&update), vec![("service", "unknown"), ("function", "unknown")]);
    assert_eq!(update.change, Change::Count);
}

#[test]
fn tracked_errors_are_signalled() {
    let failed: Result<u8, &str> = Err("no");
    let (result, signal) = failed.track();
    assert_eq!(result, Err("no"));
    let signal = signal.unwrap();
    assert_eq!(signal.target, "metrics::signal");
    assert_eq!(signal.message, "err");
    assert!(on_event(signal.target, &vec![span("f", None)]).is_some());
    assert!(!observability_lib::logging::reaches_log(signal.target, signal.severity));
    let fine: Result<u8, &str> = Ok(3);
    let (result, signal) = fine.track();
    assert_eq!(result, Ok(3));
    assert!(signal.is_none());
}
