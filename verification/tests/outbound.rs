use observability_lib::client::{track_stream, ClientMetrics, TrackExternal};
use observability_lib::metric::{Change, Update};
use observability_lib::traffic::Polled;

const MS: u128 = 1_000_000;

fn labels(update: &Update) -> Vec<(&'static str, &str)> {
    update.labels.iter().map(|l| (l.key, l.value.as_str())).collect()
}

#[test]
fn client_requests_report_their_status() {
    let metrics = ClientMetrics::new("billing", "gpt-4");
    let update = metrics.handle("GET", 5 * MS, 17 * MS, Some(404));
    assert_eq!(update.metric, "external_request_duration_seconds_ms");
    assert_eq!(
        labels(&update),
        vec![("target", "billing"), ("method", "GET"), ("status", "404"), ("model", "gpt-4")]
    );
    assert_eq!(update.change, Change::Observe(12));
}

#[test]
fn client_requests_without_response_are_errors() {
    let metrics = ClientMetrics::new("billing", "");
    let update = metrics.handle("PUT", 0, 0, None);
    assert_eq!(
        labels(&update),
        vec![("target", "billing"), ("method", "PUT"), ("status", "error"), ("model", "")]
    );
}

#[test]
fn stream_reports_at_its_end_and_once() {
    let monitored = track_stream(vec![1, 2], "gpt_generation", "gpt-4", MS);
    assert_eq!(monitored.inner, vec![1, 2]);
    let mut monitor = monitored.monitor;
    assert!(monitor.poll_next(Polled::Item, 2 * MS).is_none());
    assert!(monitor.poll_next(Polled::Pending, 3 * MS).is_none());
    let update = monitor.poll_next(Polled::Finished, 9 * MS).unwrap();
    assert_eq!(update.metric, "external_stream_duration_seconds_ms");
    assert_eq!(labels(&update), vec![("service", "gpt_generation"), ("model", "gpt-4")]);
    assert_eq!(update.change, Change::Observe(8));
    assert!(monitor.poll_next(Polled::Finished, 10 * MS).is_none());
    assert!(monitor.close(11 * MS).is_none());
}

#[test]
fn dropped_stream_reports_at_the_drop() {
    let monitored = track_stream((), "s", "m", 0);
    let update = monitored.monitor.close(30 * MS).unwrap();
    assert_eq!(update.change, Change::Observe(30));
}

#[test]
fn awaited_calls_report_once() {
    let timed = std::future::ready(()).track_external("gpt_unary", "gpt-4", MS);
    let polls = [(false, 2 * MS), (false, 5 * MS), (true, 8 * MS)];
    let reports: Vec<Update> =
        polls.iter().filter_map(|(ready, at)| timed.request.poll(*ready, *at)).collect();
    assert_eq!(reports.len(), 1);
    assert_eq!(reports[0].change, Change::Observe(7));
    let given_up = &polls[..2];
    assert!(given_up.iter().all(|(ready, at)| timed.request.poll(*ready, *at).is_none()));
}

#[test]
fn awaited_calls_report_when_ready() {
    let timed = std::future::ready(7).track_external("gpt_unary", "gpt-4", 2 * MS);
    assert_eq!(timed.inner.into_inner(), 7);
    assert!(timed.request.poll(false, 3 * MS).is_none());
    let update = timed.request.poll(true, 6 * MS).unwrap();
    assert_eq!(update.metric, "external_request_duration_seconds_ms");
    assert_eq!(
        labels(&update),
        vec![("target", "gpt_unary"), ("method", "POST"), ("status", "completed"), ("model", "gpt-4")]
    );
    assert_eq!(update.change, Change::Observe(4));
}
