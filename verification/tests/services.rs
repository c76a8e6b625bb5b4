use observability_lib::service::{matched_route, request_span, tag_service_with_state};
use observability_lib::spans::{on_close, on_new_span, ServiceExtractor};
use observability_lib::{ServiceMap, ServiceTag};

#[test]
fn map_without_rules_gives_the_default() {
    let map = ServiceMap::new("core");
    assert_eq!(map.service_of("/anything"), "core");
    assert_eq!(map.service_of(""), "core");
}

#[test]
fn exact_and_prefix_rules() {
    let map = ServiceMap::new("core")
        .exact("/order", "orders")
        .prefix("/chat", String::from("llm"));
    assert_eq!(map.service_of("/order"), "orders");
    assert_eq!(map.service_of("/orders"), "core");
    assert_eq!(map.service_of("/chat"), "llm");
    assert_eq!(map.service_of("/chat/stream"), "llm");
    assert_eq!(map.service_of("/cha"), "core");
}

#[test]
fn first_applying_rule_wins() {
    let map = ServiceMap::new("core")
        .prefix("/a", "first")
        .exact("/a/b", "second")
        .prefix("", "rest");
    assert_eq!(map.service_of("/a/b"), "first");
    assert_eq!(map.service_of("/z"), "rest");
}

#[test]
fn later_rules_leave_earlier_routes_alone() {
    let map = ServiceMap::new("core").exact("/a", "one");
    let more = map.clone().prefix("/", "two");
    assert_eq!(more.service_of("/a"), "one");
    assert_eq!(more.service_of("/b"), "two");
    assert_eq!(map.service_of("/b"), "core");
}

#[test]
fn prefixes_are_taken_by_characters() {
    let map = ServiceMap::new("core").prefix("/é", "accent");
    assert_eq!(map.service_of("/école"), "accent");
    assert_eq!(map.service_of("/ecole"), "core");
}

#[test]
fn route_label_of_unmatched_requests() {
    assert_eq!(matched_route(None), "unmatched_route");
    assert_eq!(matched_route(Some("/users/{id}")), "/users/{id}");
}

#[test]
fn requests_are_tagged_by_their_route_pattern() {
    let map = ServiceMap::new("core")
        .prefix("/chat", "llm")
        .exact("unmatched_route", "nowhere");
    let tag: ServiceTag = tag_service_with_state(&map, Some("/chat/ask")).tag;
    assert_eq!(tag.clone().0, "llm");
    assert_eq!(tag_service_with_state(&map, None).tag.0, "nowhere");
    assert_eq!(tag_service_with_state(&map, Some("/order")).tag.0, "core");
}

#[test]
fn tagged_requests_run_in_a_span_of_their_service() {
    let map = ServiceMap::new("core").prefix("/chat", "llm");
    let tagged = tag_service_with_state(&map, Some("/chat/ask"));
    assert_eq!(tagged.span.name, "svc_ctx");
    assert_eq!(tagged.span.service.as_deref(), Some("llm"));
    let span = request_span(&ServiceTag("core".to_string()));
    assert_eq!((span.name, span.service.as_deref()), ("svc_ctx", Some("core")));
}

#[test]
fn functions_of_a_tagged_request_belong_to_its_service() {
    let span = tag_service_with_state(&ServiceMap::new("core"), Some("/order")).span;
    let mut fields = ServiceExtractor::default();
    fields.record_str("service", span.service.as_deref().unwrap());
    let request = on_new_span(fields, None, 0);
    let outer = on_new_span(ServiceExtractor::default(), Some(&request), 1);
    let inner = on_new_span(ServiceExtractor::default(), Some(&outer), 2);
    assert_eq!(outer.service(), Some("core".to_string()));
    assert_eq!(inner.service(), Some("core".to_string()));
    assert!(on_close(span.name, Some(&request), 9).is_none());
}
