//! Outbound calls: what a request, a stream or any awaited call to another
//! service reports.

use std::future::Future;
use vstd::prelude::*;

use crate::clock;
use crate::metric;
use crate::metric::{Change, Update};
use crate::text;
use crate::traffic;
use crate::traffic::Polled;

verus! {

/// The status label of a request that got no response.
pub const STATUS_ERROR: &'static str = "error";

/// The status label of an awaited call that is done.
pub const STATUS_COMPLETED: &'static str = "completed";

/// The method label of an awaited call.
pub const METHOD_POST: &'static str = "POST";

/// The duration of an outbound request.
pub open spec fn request_observed(
    target: Seq<char>,
    method: Seq<char>,
    status: Seq<char>,
    model: Seq<char>,
    millis: u128,
) -> metric::UpdateView {
    metric::UpdateView {
        metric: metric::EXTERNAL_REQUEST_DURATION@,
        labels: seq![
            ("target"@, target),
            ("method"@, method),
            ("status"@, status),
            ("model"@, model),
        ],
        change: Change::Observe(millis),
    }
}

/// The duration of an outbound stream.
pub open spec fn stream_observed(stream: CallView, now: u128) -> metric::UpdateView {
    metric::UpdateView {
        metric: metric::EXTERNAL_STREAM_DURATION@,
        labels: seq![("service"@, stream.service), ("model"@, stream.model_name)],
        change: Change::Observe(clock::millis_between(stream.start, now)),
    }
}

/// The duration of an outbound request.
fn observe_request(target: &str, method: &str, status: &str, model: &str, millis: u128) -> (update:
    Update)
    ensures
        update@ == request_observed(target@, method@, status@, model@, millis),
{
    let update = Update {
        metric: metric::EXTERNAL_REQUEST_DURATION,
        labels: vec![
            metric::label("target", target),
            metric::label("method", method),
            metric::label("status", status),
            metric::label("model", model),
        ],
        change: Change::Observe(millis),
    };
    assert(update@.labels =~= request_observed(target@, method@, status@, model@, millis).labels);
    update
}

/// The status label of a request that came back with a status, or with an error.
pub open spec fn status_label(status: Option<u16>) -> Seq<char> {
    match status {
        Some(code) => text::decimal(code as nat),
        None => STATUS_ERROR@,
    }
}

/// Measures the requests of a client.
#[derive(Debug)]
pub struct ClientMetrics {
    target_service: String,
    model_name: String,
}

/// A client's labels over characters.
pub struct ClientView {
    pub target_service: Seq<char>,
    pub model_name: Seq<char>,
}

impl View for ClientMetrics {
    type V = ClientView;

    closed spec fn view(&self) -> ClientView {
        ClientView { target_service: self.target_service@, model_name: self.model_name@ }
    }
}

impl ClientMetrics {
    /// The measure of a client that calls `target_service` for `model_name`.
    pub fn new(target_service: &str, model_name: &str) -> (metrics: Self)
        ensures
            metrics@ == (ClientView { target_service: target_service@, model_name: model_name@ }),
    {
        ClientMetrics {
            target_service: String::from(target_service),
            model_name: String::from(model_name),
        }
    }

    /// A request that was sent at `start` came back at `now`, with a status or
    /// with an error: what it reports.
    pub fn handle(&self, method: &str, start: u128, now: u128, status: Option<u16>) -> (update:
        Update)
        ensures
            update@ == request_observed(
                self@.target_service,
                method@,
                status_label(status),
                self@.model_name,
                clock::millis_between(start, now),
            ),
    {
        let label = match status {
            Some(code) => text::to_decimal(code),
            None => String::from(STATUS_ERROR),
        };
        observe_request(
            self.target_service.as_str(),
            method,
            label.as_str(),
            self.model_name.as_str(),
            clock::elapsed_millis(start, now),
        )
    }
}

/// A call to another service over characters: whom it calls, for which model,
/// and since when.
pub struct CallView {
    pub service: Seq<char>,
    pub model_name: Seq<char>,
    pub start: u128,
}

/// An outbound stream that is open.
#[derive(Debug)]
pub struct ClientStreamGuard {
    start: u128,
    service: String,
    model_name: String,
}

impl View for ClientStreamGuard {
    type V = CallView;

    closed spec fn view(&self) -> CallView {
        CallView { service: self.service@, model_name: self.model_name@, start: self.start }
    }
}

impl ClientStreamGuard {
    /// The stream is over: what it reports.
    pub fn close(self, now: u128) -> (update: Update)
        ensures
            update@ == stream_observed(self@, now),
    {
        let update = Update {
            metric: metric::EXTERNAL_STREAM_DURATION,
            labels: vec![
                metric::label("service", self.service.as_str()),
                metric::label("model", self.model_name.as_str()),
            ],
            change: Change::Observe(clock::elapsed_millis(self.start, now)),
        };
        assert(update@.labels =~= stream_observed(self@, now).labels);
        update
    }
}

/// Watches a stream and holds its guard for as long as the stream goes on.
#[derive(Debug)]
pub struct StreamMonitor {
    guard: Option<ClientStreamGuard>,
}

impl View for StreamMonitor {
    type V = Option<CallView>;

    closed spec fn view(&self) -> Option<CallView> {
        match self.guard {
            Some(guard) => Some(guard@),
            None => None,
        }
    }
}

/// What a stream reports when its guard is let go of, if there is one.
pub open spec fn stream_released(guard: Option<CallView>, now: u128) -> Option<
    metric::UpdateView,
> {
    match guard {
        Some(call) => Some(stream_observed(call, now)),
        None => None,
    }
}

/// The guard that is still held after a poll.
pub open spec fn stream_held(guard: Option<CallView>, polled: Polled) -> Option<CallView> {
    if polled is Finished {
        None
    } else {
        guard
    }
}

/// What a poll of a stream reports.
pub open spec fn stream_poll_report(guard: Option<CallView>, polled: Polled, now: u128) -> Option<
    metric::UpdateView,
> {
    if polled is Finished {
        stream_released(guard, now)
    } else {
        None
    }
}

impl StreamMonitor {
    /// Takes in what a poll of the stream came back with. The end of the stream
    /// is reported; anything else changes nothing.
    pub fn poll_next(&mut self, polled: Polled, now: u128) -> (report: Option<Update>)
        ensures
            final(self)@ == stream_held(old(self)@, polled),
            metric::report_view(report) == stream_poll_report(old(self)@, polled, now),
    {
        match polled {
            Polled::Finished => match self.guard.take() {
                Some(guard) => Some(guard.close(now)),
                None => None,
            },
            _ => None,
        }
    }

    /// The stream is dropped: it is over now if it was not over before.
    pub fn close(self, now: u128) -> (report: Option<Update>)
        ensures
            metric::report_view(report) == stream_released(self@, now),
    {
        match self.guard {
            Some(guard) => Some(guard.close(now)),
            None => None,
        }
    }
}

/// A stream together with its monitor.
#[derive(Debug)]
pub struct MonitoredStream<S> {
    pub inner: S,
    pub monitor: StreamMonitor,
}

/// The stream from `service_name` for `model_name`, watched from `now` on.
pub fn track_stream<S>(stream: S, service_name: &str, model_name: &str, now: u128) -> (monitored:
    MonitoredStream<S>)
    ensures
        monitored.inner == stream,
        monitored.monitor@ == Some(
            CallView { service: service_name@, model_name: model_name@, start: now },
        ),
{
    MonitoredStream {
        inner: stream,
        monitor: StreamMonitor {
            guard: Some(
                ClientStreamGuard {
                    start: now,
                    service: String::from(service_name),
                    model_name: String::from(model_name),
                },
            ),
        },
    }
}

/// A call to another service that is awaited.
#[derive(Debug)]
pub struct ExternalRequest {
    service: String,
    model_name: String,
    start: u128,
}

impl View for ExternalRequest {
    type V = CallView;

    closed spec fn view(&self) -> CallView {
        CallView { service: self.service@, model_name: self.model_name@, start: self.start }
    }
}

/// What an awaited call reports when it is done.
pub open spec fn call_observed(call: CallView, now: u128) -> metric::UpdateView {
    request_observed(
        call.service,
        METHOD_POST@,
        STATUS_COMPLETED@,
        call.model_name,
        clock::millis_between(call.start, now),
    )
}

/// What a poll of an awaited call at `now` reports.
pub open spec fn call_poll_report(call: CallView, ready: bool, now: u128) -> Option<
    metric::UpdateView,
> {
    if ready {
        Some(call_observed(call, now))
    } else {
        None
    }
}

impl ExternalRequest {
    /// Takes in whether a poll of the call found it done: what that reports.
    pub fn poll(&self, ready: bool, now: u128) -> (report: Option<Update>)
        ensures
            metric::report_view(report) == call_poll_report(self@, ready, now),
    {
        if ready {
            Some(
                observe_request(
                    self.service.as_str(),
                    METHOD_POST,
                    STATUS_COMPLETED,
                    self.model_name.as_str(),
                    clock::elapsed_millis(self.start, now),
                ),
            )
        } else {
            None
        }
    }
}

/// A future together with what is known of the call that it awaits.
#[derive(Debug)]
pub struct ExternalRequestFuture<F> {
    pub inner: F,
    pub request: ExternalRequest,
}

/// Futures whose time to completion is reported.
pub trait TrackExternal: Sized {
    /// The future as a call to `service` for `model_name` that begins at `now`.
    fn track_external(self, service: &str, model_name: &str, now: u128) -> (timed:
        ExternalRequestFuture<Self>)
        ensures
            timed.inner == self,
            timed.request@ == (CallView {
                service: service@,
                model_name: model_name@,
                start: now,
            }),
    ;
}

impl<F: Future> TrackExternal for F {
    fn track_external(self, service: &str, model_name: &str, now: u128) -> (timed:
        ExternalRequestFuture<Self>) {
        ExternalRequestFuture {
            inner: self,
            request: ExternalRequest {
                service: String::from(service),
                model_name: String::from(model_name),
                start: now,
            },
        }
    }
}

/// The guard of a stream that is still held after a run of polls.
pub open spec fn stream_held_after(
    guard: Option<CallView>,
    polls: Seq<(Polled, u128)>,
) -> Option<CallView>
    decreases polls.len(),
{
    if polls.len() == 0 {
        guard
    } else {
        stream_held(stream_held_after(guard, polls.drop_last()), polls.last().0)
    }
}

/// What a run of polls of a stream reports, each with the time of its answer.
pub open spec fn stream_reports(
    guard: Option<CallView>,
    polls: Seq<(Polled, u128)>,
) -> Seq<metric::UpdateView>
    decreases polls.len(),
{
    if polls.len() == 0 {
        Seq::empty()
    } else {
        stream_reports(guard, polls.drop_last()) + as_seq(
            stream_poll_report(
                stream_held_after(guard, polls.drop_last()),
                polls.last().0,
                polls.last().1,
            ),
        )
    }
}

/// The updates of an optional report.
pub open spec fn as_seq(report: Option<metric::UpdateView>) -> Seq<metric::UpdateView> {
    match report {
        Some(update) => seq![update],
        None => Seq::empty(),
    }
}

proof fn lemma_stream_reports(call: CallView, polls: Seq<(Polled, u128)>)
    ensures
        !traffic::reaches_end(polls) ==> stream_held_after(Some(call), polls) == Some(call)
            && stream_reports(Some(call), polls) == Seq::<metric::UpdateView>::empty(),
        traffic::reaches_end(polls) ==> stream_held_after(Some(call), polls) is None
            && stream_reports(Some(call), polls) == seq![
            stream_observed(call, traffic::over_at(polls, 0)),
        ],
    decreases polls.len(),
{
    if polls.len() > 0 {
        let before = polls.drop_last();
        lemma_stream_reports(call, before);
        traffic::lemma_over_at_last(polls, 0);
        if traffic::reaches_end(before) {
            let i = choose|i: int| 0 <= i < before.len() && (#[trigger] before[i]).0 is Finished;
            assert(polls[i] == before[i]);
            traffic::lemma_over_at_reached(before, 0, polls.last().1);
            assert(stream_reports(Some(call), polls) =~= stream_reports(Some(call), before));
        } else if polls.last().0 is Finished {
            assert(polls[polls.len() - 1].0 is Finished);
            traffic::lemma_over_at_unreached(before, polls.last().1);
            assert(stream_reports(Some(call), polls) =~= seq![
                stream_observed(call, polls.last().1),
            ]);
        } else {
            assert forall|i: int| 0 <= i < polls.len() implies !((#[trigger] polls[i]).0 is Finished) by {
                if i < before.len() {
                    assert(polls[i] == before[i]);
                }
            }
            assert(stream_reports(Some(call), polls) =~= Seq::empty());
        }
    }
}

/// However a stream is polled, and whether it is read to its end or dropped
/// before: over its whole life it reports one duration, which runs to its end,
/// or to the drop where it did not end.
pub proof fn law_stream_reports_once(
    call: CallView,
    polls: Seq<(Polled, u128)>,
    dropped: u128,
)
    ensures
        stream_reports(Some(call), polls) + as_seq(
            stream_released(stream_held_after(Some(call), polls), dropped),
        ) == seq![stream_observed(call, traffic::over_at(polls, dropped))],
{
    lemma_stream_reports(call, polls);
    let all = stream_reports(Some(call), polls) + as_seq(
        stream_released(stream_held_after(Some(call), polls), dropped),
    );
    if traffic::reaches_end(polls) {
        traffic::lemma_over_at_reached(polls, 0, dropped);
    } else {
        traffic::lemma_over_at_unreached(polls, dropped);
    }
    assert(all =~= seq![stream_observed(call, traffic::over_at(polls, dropped))]);
}

/// All that polls of an awaited call report: each poll found the call done or
/// not, at a time.
pub open spec fn call_reports(call: CallView, polls: Seq<(bool, u128)>) -> Seq<metric::UpdateView>
    decreases polls.len(),
{
    if polls.len() == 0 {
        Seq::empty()
    } else {
        call_reports(call, polls.drop_last()) + as_seq(
            call_poll_report(call, polls.last().0, polls.last().1),
        )
    }
}

/// An awaited call reports one duration, from its start to the poll that found it
/// done, after which it is polled no more; a call that is given up before that
/// reports nothing.
pub proof fn law_call_reports_once(call: CallView, polls: Seq<(bool, u128)>)
    requires
        forall|i: int| 0 <= i < polls.len() - 1 ==> !(#[trigger] polls[i]).0,
    ensures
        call_reports(call, polls) == (if polls.len() > 0 && polls.last().0 {
            seq![call_observed(call, polls.last().1)]
        } else {
            Seq::empty()
        }),
    decreases polls.len(),
{
    if polls.len() > 0 {
        let before = polls.drop_last();
        if before.len() > 0 {
            assert(before.last() == polls[before.len() - 1]);
        }
        law_call_reports_once(call, before);
        assert(call_reports(call, polls) =~= as_seq(
            call_poll_report(call, polls.last().0, polls.last().1),
        ));
    }
}

/// The status label of a response is its code in decimal, whatever the code; so
/// different codes have different labels, and no response is taken for a request
/// that got none.
pub proof fn law_status_labels_tell_statuses_apart(a: u16, b: u16)
    ensures
        text::writes_number(status_label(Some(a)), a as int),
        a != b ==> status_label(Some(a)) != status_label(Some(b)),
        status_label(Some(a)) != status_label(None),
        status_label(None) == "error"@,
{
    text::law_decimals_read_back(a as nat);
    if a != b {
        text::law_decimals_differ(a as nat, b as nat);
    }
    reveal_strlit("error");
    assert(status_label(None)[0] == 'e');
    assert(status_label(Some(a))[0] <= '9');
}

/// A request reports one duration, of the whole milliseconds that it took, under
/// the client's target and model, its method, and its status: the decimal text of
/// the code of its response, or that of an error where it got none.
pub proof fn law_requests_are_timed(
    target: &str,
    model: &str,
    metrics: ClientMetrics,
    method: &str,
    start: u128,
    now: u128,
    status: Option<u16>,
    update: Update,
)
    requires
        call_ensures(ClientMetrics::new, (target, model), metrics),
        call_ensures(ClientMetrics::handle, (&metrics, method, start, now, status), update),
    ensures
        update.labels@.len() == 4,
        status is Some ==> text::writes_number(update.labels@[2].value@, status->0 as int),
        status is None ==> update.labels@[2].value@ == "error"@,
        metric::is_update_of(
            update,
            "external_request_duration_seconds_ms"@,
            seq![
                ("target"@, target@),
                ("method"@, method@),
                ("status"@, update.labels@[2].value@),
                ("model"@, model@),
            ],
        ),
        update.change matches Change::Observe(millis) && {
            &&& start <= now ==> millis * 1_000_000 <= now - start < (millis + 1) * 1_000_000
            &&& now <= start ==> millis == 0
        },
{
    clock::lemma_millis_between(start, now);
    metric::lemma_labels_carried(update, update@.labels);
    if status is Some {
        law_status_labels_tell_statuses_apart(status->0, status->0);
    }
}

/// Two requests of a client that came back differently are reported under
/// different status labels.
pub proof fn law_outcomes_have_their_own_labels(
    metrics: ClientMetrics,
    method: &str,
    start: u128,
    now: u128,
    a: Option<u16>,
    b: Option<u16>,
    first: Update,
    second: Update,
)
    requires
        call_ensures(ClientMetrics::handle, (&metrics, method, start, now, a), first),
        call_ensures(ClientMetrics::handle, (&metrics, method, start, now, b), second),
        a != b,
    ensures
        first.labels@.len() == 4,
        second.labels@.len() == 4,
        first.labels@[2].value@ != second.labels@[2].value@,
{
    metric::lemma_labels_carried(first, first@.labels);
    metric::lemma_labels_carried(second, second@.labels);
    if a is Some && b is Some {
        law_status_labels_tell_statuses_apart(a->0, b->0);
    } else if a is Some {
        law_status_labels_tell_statuses_apart(a->0, a->0);
    } else {
        law_status_labels_tell_statuses_apart(b->0, b->0);
    }
}

/// Whether an update is the duration of a stream of `service` for `model`, of the
/// whole milliseconds from `start` to `now`.
pub open spec fn times_stream(
    update: Update,
    service: Seq<char>,
    model: Seq<char>,
    start: u128,
    now: u128,
) -> bool {
    &&& metric::is_update_of(
        update,
        "external_stream_duration_seconds_ms"@,
        seq![("service"@, service), ("model"@, model)],
    )
    &&& update.change matches Change::Observe(millis) && {
        &&& start <= now ==> millis * 1_000_000 <= now - start < (millis + 1) * 1_000_000
        &&& now <= start ==> millis == 0
    }
}

proof fn lemma_times_stream(call: CallView, update: Update, now: u128)
    requires
        update@ == stream_observed(call, now),
    ensures
        times_stream(update, call.service, call.model_name, call.start, now),
{
    clock::lemma_millis_between(call.start, now);
    metric::lemma_labels_carried(update, update@.labels);
}

/// A stream that is over reports the whole milliseconds since it began.
pub proof fn law_stream_guards_close(guard: ClientStreamGuard, now: u128, update: Update)
    requires
        call_ensures(ClientStreamGuard::close, (guard, now), update),
    ensures
        times_stream(update, guard@.service, guard@.model_name, guard@.start, now),
{
    lemma_times_stream(guard@, update, now);
}

/// A watched stream is handed on as it is. Polls that do not come to its end
/// report nothing; its end reports its duration, and after that dropping it
/// reports nothing more; without its end the drop reports the duration.
pub proof fn law_streams_are_timed<S>(
    stream: S,
    service: &str,
    model: &str,
    start: u128,
    monitored: MonitoredStream<S>,
    monitor: &mut StreamMonitor,
    polled: Polled,
    now: u128,
    report: Option<Update>,
    later: u128,
    rest: Option<Update>,
)
    requires
        call_ensures(track_stream::<S>, (stream, service, model, start), monitored),
        monitored.monitor == *old(monitor),
        call_ensures(StreamMonitor::poll_next, (monitor, polled, now), report),
        call_ensures(StreamMonitor::close, (*final(monitor), later), rest),
    ensures
        monitored.inner == stream,
        polled == Polled::Finished ==> {
            &&& report is Some
            &&& times_stream(report->0, service@, model@, start, now)
            &&& rest is None
        },
        polled != Polled::Finished ==> {
            &&& report is None
            &&& rest is Some
            &&& times_stream(rest->0, service@, model@, start, later)
        },
{
    let call = CallView { service: service@, model_name: model@, start };
    if polled == Polled::Finished {
        lemma_times_stream(call, report->0, now);
    } else {
        lemma_times_stream(call, rest->0, later);
    }
}

/// A poll that does not come to the end of a stream changes nothing; one that
/// does leaves nothing to report, and reports what dropping the stream would have
/// reported.
pub proof fn law_stream_polls_wait_for_the_end(
    monitor: &mut StreamMonitor,
    polled: Polled,
    now: u128,
    report: Option<Update>,
    dropped: Option<Update>,
)
    requires
        call_ensures(StreamMonitor::poll_next, (monitor, polled, now), report),
        call_ensures(StreamMonitor::close, (*old(monitor), now), dropped),
    ensures
        polled != Polled::Finished ==> report is None && final(monitor)@ == old(monitor)@,
        polled == Polled::Finished ==> final(monitor)@ is None && metric::report_view(report)
            == metric::report_view(dropped),
        old(monitor)@ is None ==> report is None && dropped is None,
{
}

/// An awaited call reports nothing while it is not done; when it is, it reports
/// the whole milliseconds since it began, as a completed call to its service for
/// its model. The future that makes it is handed on as it is.
pub proof fn law_awaited_calls_are_timed<F: Future>(
    future: F,
    service: &str,
    model: &str,
    start: u128,
    timed: ExternalRequestFuture<F>,
    ready: bool,
    now: u128,
    report: Option<Update>,
)
    requires
        call_ensures(
            <F as TrackExternal>::track_external,
            (future, service, model, start),
            timed,
        ),
        call_ensures(ExternalRequest::poll, (&timed.request, ready, now), report),
    ensures
        timed.inner == future,
        !ready ==> report is None,
        ready ==> {
            &&& report is Some
            &&& metric::is_update_of(
                report->0,
                "external_request_duration_seconds_ms"@,
                seq![
                    ("target"@, service@),
                    ("method"@, "POST"@),
                    ("status"@, "completed"@),
                    ("model"@, model@),
                ],
            )
            &&& report->0.change matches Change::Observe(millis) && {
                &&& start <= now ==> millis * 1_000_000 <= now - start < (millis + 1) * 1_000_000
                &&& now <= start ==> millis == 0
            }
        },
{
    clock::lemma_millis_between(start, now);
    if ready {
        metric::lemma_labels_carried(report->0, report->0@.labels);
    }
}

} // verus!
