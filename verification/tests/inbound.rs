use observability_lib::clock::elapsed_millis;
use observability_lib::metric::{Change, Update};
use observability_lib::service::ServiceTag;
use observability_lib::traffic::{classify, is_event_stream, Polled, Request, TrafficKind};
use observability_lib::WsTracker;

fn shown(update: &Update) -> (String, Vec<(String, String)>, Change) {
    let labels = update
        .labels
        .iter()
        .map(|l| (l.key.to_string(), l.value.clone()))
        .collect();
    (update.metric.to_string(), labels, update.change)
}

fn expected(metric: &str, labels: &[(&str, &str)], change: Change) -> (String, Vec<(String, String)>, Change) {
    let labels = labels
        .iter()
        .map(|(k, v)| (k.to_string(), v.to_string()))
        .collect();
    (metric.to_string(), labels, change)
}

const MS: u128 = 1_000_000;

#[test]
fn durations_are_whole_milliseconds() {
    assert_eq!(elapsed_millis(5, 5), 0);
    assert_eq!(elapsed_millis(0, MS - 1), 0);
    assert_eq!(elapsed_millis(0, MS), 1);
    assert_eq!(elapsed_millis(3 * MS, 10 * MS + 999_999), 7);
    assert_eq!(elapsed_millis(10, 3), 0);
}

#[test]
fn traffic_is_told_apart() {
    assert_eq!(classify(101, None), TrafficKind::WebSocket);
    assert_eq!(classify(101, Some(b"text/event-stream")), TrafficKind::WebSocket);
    assert_eq!(classify(200, Some(b"text/event-stream")), TrafficKind::Sse);
    assert_eq!(classify(200, Some(b"Text/Event-Stream; charset=utf-8")), TrafficKind::Sse);
    assert_eq!(classify(200, Some(b"application/json")), TrafficKind::Http);
    assert_eq!(classify(200, Some(b" text/event-stream")), TrafficKind::Http);
    assert_eq!(classify(500, None), TrafficKind::Http);
}

#[test]
fn header_values_that_are_no_text_are_plain_http() {
    assert_eq!(classify(200, Some(b"text/event-stream;x=\xff")), TrafficKind::Http);
    assert_eq!(classify(200, Some(b"text/event-stream\x7f")), TrafficKind::Http);
    assert_eq!(classify(200, Some(b"text/event-stream\n")), TrafficKind::Http);
    assert_eq!(classify(200, Some(b"text/event-stream\t~")), TrafficKind::Sse);
    assert_eq!(classify(200, Some(b"")), TrafficKind::Http);
}

#[test]
fn event_streams_in_any_case() {
    assert!(is_event_stream("TEXT/EVENT-STREAM"));
    assert!(is_event_stream("text/event-streaming"));
    assert!(!is_event_stream("text/event-strea"));
    assert!(!is_event_stream("text@event-stream"));
}

#[test]
fn kind_labels() {
    assert_eq!(TrafficKind::WebSocket.label(), "websocket");
    assert_eq!(TrafficKind::Sse.label(), "sse");
    assert_eq!(TrafficKind::Http.label(), "http");
}

#[test]
fn http_request_reports_over_its_life() {
    let request = Request::begin(Some("/order"), "POST", Some(ServiceTag("orders".to_string())), 2 * MS);
    let (updates, monitor) = request.respond(204, Some(b"text/plain"));
    assert_eq!(updates.len(), 2);
    assert_eq!(
        shown(&updates[0]),
        expected(
            "http_requests_total",
            &[("route", "/order"), ("method", "POST"), ("status", "204"), ("type", "http"), ("service", "orders")],
            Change::Count,
        )
    );
    assert_eq!(
        shown(&updates[1]),
        expected("http_requests_active", &[("type", "http"), ("service", "orders")], Change::Up)
    );
    let mut monitor = monitor.unwrap();
    assert!(monitor.poll_frame(Polled::Pending, 3 * MS).is_empty());
    assert!(monitor.poll_frame(Polled::Item, 4 * MS).is_empty());
    let closing = monitor.poll_frame(Polled::Finished, 5 * MS);
    assert_eq!(closing.len(), 2);
    assert_eq!(
        shown(&closing[0]),
        expected("http_requests_active", &[("type", "http"), ("service", "orders")], Change::Down)
    );
    assert_eq!(
        shown(&closing[1]),
        expected(
            "http_request_duration_seconds",
            &[("route", "/order"), ("method", "POST"), ("type", "http"), ("service", "orders")],
            Change::Observe(3),
        )
    );
    assert!(monitor.poll_frame(Polled::Finished, 6 * MS).is_empty());
    assert!(monitor.close(7 * MS).is_empty());
}

#[test]
fn stream_that_is_dropped_reports_at_the_drop() {
    let request = Request::begin(None, "GET", None, 0);
    let (updates, monitor) = request.respond(200, Some(b"text/event-stream"));
    assert_eq!(
        shown(&updates[0]).1,
        expected(
            "",
            &[("route", "unmatched_route"), ("method", "GET"), ("status", "200"), ("type", "sse"), ("service", "gateway")],
            Change::Count,
        )
        .1
    );
    let mut monitor = monitor.unwrap();
    assert!(monitor.poll_frame(Polled::Item, MS).is_empty());
    let closing = monitor.close(90 * MS);
    assert_eq!(closing.len(), 2);
    assert_eq!(closing[0].change, Change::Down);
    assert_eq!(closing[1].change, Change::Observe(90));
}

#[test]
fn websocket_handshake_is_only_counted() {
    let request = Request::begin(Some("/chat"), "GET", None, 0);
    let (updates, monitor) = request.respond(101, None);
    assert!(monitor.is_none());
    assert_eq!(updates.len(), 1);
    assert_eq!(updates[0].labels[2].value, "101");
    assert_eq!(updates[0].labels[3].value, "websocket");
}

#[test]
fn websocket_session_is_active_until_closed() {
    let (tracker, up) = WsTracker::new("chat_service", 10 * MS);
    assert_eq!(
        shown(&up),
        expected(
            "http_requests_active",
            &[("type", "websocket_session"), ("service", "chat_service")],
            Change::Up,
        )
    );
    let closing = tracker.close(25 * MS);
    assert_eq!(closing.len(), 2);
    assert_eq!(
        shown(&closing[0]),
        expected(
            "http_requests_active",
            &[("type", "websocket_session"), ("service", "chat_service")],
            Change::Down,
        )
    );
    assert_eq!(
        shown(&closing[1]),
        expected(
            "websocket_session_duration_seconds_ms",
            &[("service", "chat_service")],
            Change::Observe(15),
        )
    );
}

fn active(log: &[Update], kind: &str, service: &str) -> i32 {
    log.iter()
        .filter(|u| u.metric == "http_requests_active")
        .filter(|u| u.labels[0].value == kind && u.labels[1].value == service)
        .map(|u| match u.change {
            Change::Up => 1,
            Change::Down => -1,
            _ => 0,
        })
        .sum()
}

#[test]
fn active_gauge_counts_interleaved_connections() {
    let mut log: Vec<Update> = Vec::new();
    let (updates, first) = Request::begin(Some("/a"), "GET", None, 0).respond(200, None);
    log.extend(updates);
    let (updates, second) = Request::begin(Some("/b"), "GET", None, 1).respond(200, None);
    log.extend(updates);
    let (updates, third) =
        Request::begin(Some("/c"), "GET", None, 2).respond(200, Some(b"text/event-stream"));
    log.extend(updates);
    let (session, update) = WsTracker::new("gateway", 3);
    log.push(update);
    assert_eq!(active(&log, "http", "gateway"), 2);
    assert_eq!(active(&log, "sse", "gateway"), 1);
    assert_eq!(active(&log, "websocket_session", "gateway"), 1);
    let mut first = first.unwrap();
    let mut second = second.unwrap();
    log.extend(second.poll_frame(Polled::Finished, 4));
    log.extend(first.poll_frame(Polled::Item, 5));
    assert_eq!(active(&log, "http", "gateway"), 1);
    log.extend(session.close(6));
    log.extend(second.close(7));
    log.extend(third.unwrap().close(8));
    assert_eq!(active(&log, "http", "gateway"), 1);
    assert_eq!(active(&log, "sse", "gateway"), 0);
    assert_eq!(active(&log, "websocket_session", "gateway"), 0);
    log.extend(first.close(9));
    assert_eq!(active(&log, "http", "gateway"), 0);
}
