//! What the exporter is told at start-up: the buckets of its histograms and
//! what its metrics are.

use vstd::prelude::*;

use crate::client;
use crate::metric;
use crate::metric::MetricKind;
use crate::spans;
use crate::traffic;
use crate::websocket;

verus! {

/// The width of a histogram bucket, in milliseconds.
pub const BUCKET_WIDTH: u32 = 100;

/// The upper bound of the last bounded histogram bucket, in milliseconds.
pub const LAST_BUCKET: u32 = 10_000;

/// The upper bounds of the histogram buckets in milliseconds, in ascending
/// order: every multiple of the width up to the last bound.
pub fn duration_buckets() -> (bounds: Vec<u32>)
    ensures
        bounds@.len() == 100,
        forall|i: int| 0 <= i < 100 ==> #[trigger] bounds@[i] == BUCKET_WIDTH * (i + 1),
        bounds@.last() == LAST_BUCKET,
{
    let mut bounds: Vec<u32> = Vec::new();
    let mut bound: u32 = BUCKET_WIDTH;
    while bound <= LAST_BUCKET
        invariant
            bound == BUCKET_WIDTH * (bounds@.len() + 1),
            bounds@.len() <= 100,
            forall|i: int|
                0 <= i < bounds@.len() ==> #[trigger] bounds@[i] == BUCKET_WIDTH * (i + 1),
        decreases LAST_BUCKET + BUCKET_WIDTH - bound,
    {
        bounds.push(bound);
        bound = bound + BUCKET_WIDTH;
    }
    bounds
}

/// What a metric is.
#[derive(Debug)]
pub struct Description {
    pub kind: MetricKind,
    pub metric: &'static str,
    pub text: &'static str,
}

/// A description over characters.
pub struct DescriptionView {
    pub kind: MetricKind,
    pub metric: Seq<char>,
    pub text: Seq<char>,
}

impl View for Description {
    type V = DescriptionView;

    open spec fn view(&self) -> DescriptionView {
        DescriptionView { kind: self.kind, metric: self.metric@, text: self.text@ }
    }
}

/// A description over characters, from its parts.
pub open spec fn described_as(kind: MetricKind, metric: &str, text: &str) -> DescriptionView {
    DescriptionView { kind, metric: metric@, text: text@ }
}

/// What the metrics are.
pub open spec fn catalogue() -> Seq<DescriptionView> {
    seq![
        described_as(MetricKind::Counter, metric::HTTP_REQUESTS_TOTAL, "Total HTTP requests"),
        described_as(MetricKind::Gauge, metric::HTTP_REQUESTS_ACTIVE, "Active connections"),
        described_as(
            MetricKind::Histogram,
            metric::HTTP_REQUEST_DURATION,
            "HTTP Latency (full body/stream duration)",
        ),
        described_as(MetricKind::Histogram, metric::FUNCTION_DURATION, "Internal Latency"),
        described_as(MetricKind::Counter, metric::FUNCTION_ERRORS_TOTAL, "Internal Errors"),
        described_as(
            MetricKind::Histogram,
            metric::EXTERNAL_REQUEST_DURATION,
            "Outbound HTTP Latency",
        ),
        described_as(
            MetricKind::Histogram,
            metric::EXTERNAL_STREAM_DURATION,
            "Outbound Stream Duration",
        ),
        described_as(
            MetricKind::Histogram,
            metric::EXTERNAL_STREAM_TTFT,
            "Time to first token for outbound streams",
        ),
        described_as(
            MetricKind::Histogram,
            metric::WEBSOCKET_SESSION_DURATION,
            "Duration of WebSocket sessions",
        ),
    ]
}

fn describe(kind: MetricKind, metric: &'static str, text: &'static str) -> (d: Description)
    ensures
        d@ == described_as(kind, metric, text),
{
    Description { kind, metric, text }
}

/// What the metrics are.
pub fn metric_descriptions() -> (descriptions: Vec<Description>)
    ensures
        descriptions@.map_values(|d: Description| d@) == catalogue(),
{
    let descriptions = vec![
        describe(MetricKind::Counter, metric::HTTP_REQUESTS_TOTAL, "Total HTTP requests"),
        describe(MetricKind::Gauge, metric::HTTP_REQUESTS_ACTIVE, "Active connections"),
        describe(
            MetricKind::Histogram,
            metric::HTTP_REQUEST_DURATION,
            "HTTP Latency (full body/stream duration)",
        ),
        describe(MetricKind::Histogram, metric::FUNCTION_DURATION, "Internal Latency"),
        describe(MetricKind::Counter, metric::FUNCTION_ERRORS_TOTAL, "Internal Errors"),
        describe(
            MetricKind::Histogram,
            metric::EXTERNAL_REQUEST_DURATION,
            "Outbound HTTP Latency",
        ),
        describe(
            MetricKind::Histogram,
            metric::EXTERNAL_STREAM_DURATION,
            "Outbound Stream Duration",
        ),
        describe(
            MetricKind::Histogram,
            metric::EXTERNAL_STREAM_TTFT,
            "Time to first token for outbound streams",
        ),
        describe(
            MetricKind::Histogram,
            metric::WEBSOCKET_SESSION_DURATION,
            "Duration of WebSocket sessions",
        ),
    ];
    assert(descriptions@.map_values(|d: Description| d@) =~= catalogue());
    descriptions
}

/// Whether the catalogue knows the metric of an update, as a metric that can change so.
pub open spec fn is_described(update: metric::UpdateView) -> bool {
    exists|i: int|
        0 <= i < catalogue().len() && (#[trigger] catalogue()[i]).metric == update.metric
            && catalogue()[i].kind == update.change.kind()
}

/// No metric is described twice.
pub proof fn law_metrics_are_described_once(i: int, j: int)
    requires
        0 <= i < catalogue().len(),
        0 <= j < catalogue().len(),
        catalogue()[i].metric == catalogue()[j].metric,
    ensures
        i == j,
{
    reveal_strlit("http_requests_total");
    reveal_strlit("http_requests_active");
    reveal_strlit("http_request_duration_seconds");
    reveal_strlit("function_duration_seconds");
    reveal_strlit("function_errors_total");
    reveal_strlit("external_request_duration_seconds_ms");
    reveal_strlit("external_stream_duration_seconds_ms");
    reveal_strlit("external_stream_ttft_seconds_ms");
    reveal_strlit("websocket_session_duration_seconds_ms");
    let lengths = seq![19nat, 20, 29, 25, 21, 36, 35, 31, 37];
    assert forall|k: int| 0 <= k < 9 implies (#[trigger] catalogue()[k]).metric.len()
        == lengths[k] by {}
    assert(lengths[i] == lengths[j]);
}

/// Whatever is reported of inbound traffic is described.
pub proof fn law_traffic_is_described(
    request: traffic::RequestView,
    status: u16,
    kind: traffic::TrafficKind,
    session: websocket::SessionView,
    now: u128,
)
    ensures
        forall|i: int|
            0 <= i < traffic::response_reports(request, status, kind).len() ==> is_described(
                #[trigger] traffic::response_reports(request, status, kind)[i],
            ),
        forall|i: int|
            0 <= i < 2 ==> is_described(
                #[trigger] traffic::closing_updates(traffic::GuardView { kind, request }, now)[i],
            ),
        is_described(websocket::session_opened(session.service)),
        forall|i: int|
            0 <= i < 2 ==> is_described(#[trigger] websocket::session_closed(session, now)[i]),
{
    assert(catalogue()[0].metric == metric::HTTP_REQUESTS_TOTAL@);
    assert(catalogue()[1].metric == metric::HTTP_REQUESTS_ACTIVE@);
    assert(catalogue()[2].metric == metric::HTTP_REQUEST_DURATION@);
    assert(catalogue()[8].metric == metric::WEBSOCKET_SESSION_DURATION@);
}

/// Whatever is reported of spans and events is described.
pub proof fn law_spans_are_described(
    name: Seq<char>,
    span: Option<spans::SpanView>,
    now: u128,
    target: Seq<char>,
    scope: Seq<spans::ScopeSpanView>,
)
    ensures
        spans::close_report(name, span, now) is Some ==> is_described(
            spans::close_report(name, span, now)->0,
        ),
        spans::event_report(target, scope) is Some ==> is_described(
            spans::event_report(target, scope)->0,
        ),
{
    assert(catalogue()[3].metric == metric::FUNCTION_DURATION@);
    assert(catalogue()[4].metric == metric::FUNCTION_ERRORS_TOTAL@);
}

/// Whatever is reported of outbound calls is described.
pub proof fn law_calls_are_described(
    target: Seq<char>,
    method: Seq<char>,
    status: Seq<char>,
    model: Seq<char>,
    millis: u128,
    stream: client::CallView,
    now: u128,
)
    ensures
        is_described(client::request_observed(target, method, status, model, millis)),
        is_described(client::stream_observed(stream, now)),
{
    assert(catalogue()[5].metric == metric::EXTERNAL_REQUEST_DURATION@);
    assert(catalogue()[6].metric == metric::EXTERNAL_STREAM_DURATION@);
}

} // verus!
