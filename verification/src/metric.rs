//! Changes to metrics: what is counted, gauged or observed, and under which labels.

use vstd::prelude::*;

verus! {

/// Counts requests.
pub const HTTP_REQUESTS_TOTAL: &'static str = "http_requests_total";

/// Gauges the connections that are open.
pub const HTTP_REQUESTS_ACTIVE: &'static str = "http_requests_active";

/// Durations of requests, to the end of the body. Samples are whole
/// milliseconds, whatever the name says.
pub const HTTP_REQUEST_DURATION: &'static str = "http_request_duration_seconds";

/// Durations of spans. Samples are whole milliseconds, whatever the name says.
pub const FUNCTION_DURATION: &'static str = "function_duration_seconds";

/// Counts tracked errors.
pub const FUNCTION_ERRORS_TOTAL: &'static str = "function_errors_total";

/// Durations of outbound requests, in whole milliseconds.
pub const EXTERNAL_REQUEST_DURATION: &'static str = "external_request_duration_seconds_ms";

/// Durations of outbound streams, in whole milliseconds.
pub const EXTERNAL_STREAM_DURATION: &'static str = "external_stream_duration_seconds_ms";

/// Times to the first token of outbound streams, in whole milliseconds.
pub const EXTERNAL_STREAM_TTFT: &'static str = "external_stream_ttft_seconds_ms";

/// Durations of WebSocket sessions, in whole milliseconds.
pub const WEBSOCKET_SESSION_DURATION: &'static str = "websocket_session_duration_seconds_ms";

/// What happens to a metric.
#[derive(Clone, Copy, Debug, PartialEq, Eq, Structural)]
pub enum Change {
    /// A counter goes up by one.
    Count,
    /// A gauge goes up by one.
    Up,
    /// A gauge goes down by one.
    Down,
    /// A histogram takes in a duration in milliseconds.
    Observe(u128),
}

/// The kind of a metric.
#[derive(Clone, Copy, Debug, PartialEq, Eq, Structural)]
pub enum MetricKind {
    Counter,
    Gauge,
    Histogram,
}

impl Change {
    /// The kind of metric that can change so.
    pub open spec fn kind(self) -> MetricKind {
        match self {
            Change::Count => MetricKind::Counter,
            Change::Up | Change::Down => MetricKind::Gauge,
            Change::Observe(_) => MetricKind::Histogram,
        }
    }
}

/// A label: its key and its value.
#[derive(Debug)]
pub struct Label {
    pub key: &'static str,
    pub value: String,
}

impl View for Label {
    type V = (Seq<char>, Seq<char>);

    open spec fn view(&self) -> (Seq<char>, Seq<char>) {
        (self.key@, self.value@)
    }
}

/// One change to the metric `metric` under `labels`.
#[derive(Debug)]
pub struct Update {
    pub metric: &'static str,
    pub labels: Vec<Label>,
    pub change: Change,
}

/// Labels over characters.
pub type LabelsView = Seq<(Seq<char>, Seq<char>)>;

/// An update over characters.
pub struct UpdateView {
    pub metric: Seq<char>,
    pub labels: LabelsView,
    pub change: Change,
}

impl View for Update {
    type V = UpdateView;

    open spec fn view(&self) -> UpdateView {
        UpdateView {
            metric: self.metric@,
            labels: self.labels@.map_values(|l: Label| l@),
            change: self.change,
        }
    }
}

/// Updates over characters.
pub open spec fn update_views(updates: Seq<Update>) -> Seq<UpdateView> {
    updates.map_values(|u: Update| u@)
}

/// An optional update over characters.
pub open spec fn report_view(update: Option<Update>) -> Option<UpdateView> {
    match update {
        Some(u) => Some(u@),
        None => None,
    }
}

/// The label `key` with a value of its own.
pub fn label(key: &'static str, value: &str) -> (l: Label)
    ensures
        l@ == (key@, value@),
{
    Label { key, value: String::from(value) }
}

/// By how much an update moves the gauge of open connections under `labels`.
pub open spec fn active_delta(update: UpdateView, labels: LabelsView) -> int {
    if update.metric == HTTP_REQUESTS_ACTIVE@ && update.labels == labels {
        match update.change {
            Change::Up => 1,
            Change::Down => -1,
            _ => 0,
        }
    } else {
        0
    }
}

/// What the gauge of open connections under `labels` reads after `updates`, from zero.
pub open spec fn active_after(updates: Seq<UpdateView>, labels: LabelsView) -> int
    decreases updates.len(),
{
    if updates.len() == 0 {
        0
    } else {
        active_after(updates.drop_last(), labels) + active_delta(updates.last(), labels)
    }
}

/// How many of `updates` are of the metric `metric`.
pub open spec fn times_updated(updates: Seq<UpdateView>, metric: Seq<char>) -> nat
    decreases updates.len(),
{
    if updates.len() == 0 {
        0
    } else {
        times_updated(updates.drop_last(), metric) + if updates.last().metric == metric {
            1nat
        } else {
            0
        }
    }
}

/// The metrics of inbound requests are three metrics.
pub proof fn lemma_request_metrics_differ()
    ensures
        HTTP_REQUESTS_TOTAL@ != HTTP_REQUESTS_ACTIVE@,
        HTTP_REQUESTS_TOTAL@ != HTTP_REQUEST_DURATION@,
        HTTP_REQUESTS_ACTIVE@ != HTTP_REQUEST_DURATION@,
{
    reveal_strlit("http_requests_total");
    reveal_strlit("http_requests_active");
    reveal_strlit("http_request_duration_seconds");
    assert(HTTP_REQUESTS_TOTAL@.len() == 19);
    assert(HTTP_REQUESTS_ACTIVE@.len() == 20);
    assert(HTTP_REQUEST_DURATION@.len() == 29);
}

/// The gauge after one run of updates and another is what both add up to.
pub proof fn lemma_active_after_concat(
    first: Seq<UpdateView>,
    second: Seq<UpdateView>,
    labels: LabelsView,
)
    ensures
        active_after(first + second, labels) == active_after(first, labels) + active_after(
            second,
            labels,
        ),
    decreases second.len(),
{
    if second.len() == 0 {
        assert(first + second =~= first);
    } else {
        lemma_active_after_concat(first, second.drop_last(), labels);
        assert((first + second).drop_last() =~= first + second.drop_last());
        assert((first + second).last() == second.last());
    }
}

/// Whether an update is of the metric `metric`, under these labels and no others.
pub open spec fn is_update_of(
    update: Update,
    metric: Seq<char>,
    labels: Seq<(Seq<char>, Seq<char>)>,
) -> bool {
    &&& update.metric@ == metric
    &&& update.labels@.len() == labels.len()
    &&& forall|i: int|
        0 <= i < labels.len() ==> (#[trigger] update.labels@[i]).key@ == labels[i].0
            && update.labels@[i].value@ == labels[i].1
}

/// An update whose view has these labels carries them, one by one.
pub proof fn lemma_labels_carried(update: Update, labels: LabelsView)
    requires
        update@.labels == labels,
    ensures
        is_update_of(update, update@.metric, labels),
{
    assert forall|i: int| 0 <= i < labels.len() implies (#[trigger] update.labels@[i]).key@
        == labels[i].0 && update.labels@[i].value@ == labels[i].1 by {
        assert(update@.labels[i] == update.labels@[i]@);
    }
}

/// A label has the key and the value that it was made with.
pub proof fn law_label_holds_key_and_value(key: &'static str, value: &str, l: Label)
    requires
        call_ensures(label, (key, value), l),
    ensures
        l.key@ == key@,
        l.value@ == value@,
{
}

} // verus!
