//! Inbound traffic: what kind it is, what a request reports when its response
//! is known, and what it reports when its body is over.

use vstd::prelude::*;

use crate::clock;
use crate::metric;
use crate::metric::{Change, Update};
use crate::service;
use crate::service::ServiceTag;
use crate::text;

verus! {

/// The service label of a request that carries no tag.
pub const DEFAULT_SERVICE: &'static str = "gateway";

/// The status of a completed WebSocket handshake.
pub const SWITCHING_PROTOCOLS: u16 = 101;

/// How the content type of a server-sent event stream begins.
pub const EVENT_STREAM: &'static str = "text/event-stream";

/// The kinds of traffic.
#[derive(Clone, Copy, Debug, PartialEq, Eq, Structural)]
pub enum TrafficKind {
    WebSocket,
    Sse,
    Http,
}

impl TrafficKind {
    /// The kind as a label over characters.
    pub open spec fn label_view(self) -> Seq<char> {
        match self {
            TrafficKind::WebSocket => "websocket"@,
            TrafficKind::Sse => "sse"@,
            TrafficKind::Http => "http"@,
        }
    }

    /// The kind as a label.
    pub fn label(self) -> (l: &'static str)
        ensures
            l@ == self.label_view(),
    {
        match self {
            TrafficKind::WebSocket => "websocket",
            TrafficKind::Sse => "sse",
            TrafficKind::Http => "http",
        }
    }
}

/// Whether a byte of a header value is a visible ASCII character, a space or a tab.
pub open spec fn is_header_text_byte(b: u8) -> bool {
    32 <= b < 127 || b == 9
}

/// The text of a header value, where it is text at all.
pub open spec fn header_text_view(raw: Seq<u8>) -> Option<Seq<char>> {
    if forall|i: int| 0 <= i < raw.len() ==> is_header_text_byte(#[trigger] raw[i]) {
        Some(raw.map_values(|b: u8| b as char))
    } else {
        None
    }
}

/// `HeaderValue::to_str` on the header value that holds the bytes `raw`: the
/// text of a value made of visible ASCII, spaces and tabs, and nothing for any
/// other value. Bytes that no header value can hold give nothing either.
#[verifier::external_body]
fn header_text(raw: &[u8]) -> (t: Option<String>)
    ensures
        t is Some <==> header_text_view(raw@) is Some,
        t is Some ==> t->0@ == header_text_view(raw@)->0,
{
    match axum::http::HeaderValue::from_bytes(raw) {
        Ok(value) => value.to_str().ok().map(String::from),
        Err(_) => None,
    }
}

/// Whether a content type, as text, announces server-sent events.
pub open spec fn announces_events(content_type: Seq<char>) -> bool {
    EVENT_STREAM@.is_prefix_of(text::ascii_lowercase(content_type))
}

/// Whether a content type, as text, announces server-sent events.
pub fn is_event_stream(content_type: &str) -> (events: bool)
    ensures
        events == announces_events(content_type@),
{
    text::lowercase_starts_with(content_type, EVENT_STREAM)
}

/// The kind of traffic that a response with this status and content type header starts.
pub open spec fn kind_of(status: u16, content_type: Option<Seq<u8>>) -> TrafficKind {
    if status == SWITCHING_PROTOCOLS {
        TrafficKind::WebSocket
    } else if content_type is Some && header_text_view(content_type->0) is Some
        && announces_events(header_text_view(content_type->0)->0) {
        TrafficKind::Sse
    } else {
        TrafficKind::Http
    }
}

/// An optional header value over bytes.
pub open spec fn header_view(raw: Option<&[u8]>) -> Option<Seq<u8>> {
    match raw {
        Some(bytes) => Some(bytes@),
        None => None,
    }
}

/// The kind of traffic that a response with this status and content type header starts.
pub fn classify(status: u16, content_type: Option<&[u8]>) -> (kind: TrafficKind)
    ensures
        kind == kind_of(status, header_view(content_type)),
{
    if status == SWITCHING_PROTOCOLS {
        return TrafficKind::WebSocket;
    }
    match content_type {
        Some(raw) => match header_text(raw) {
            Some(t) => if is_event_stream(t.as_str()) {
                TrafficKind::Sse
            } else {
                TrafficKind::Http
            },
            None => TrafficKind::Http,
        },
        None => TrafficKind::Http,
    }
}

/// The labels of the gauge of open connections.
pub open spec fn active_labels(kind: Seq<char>, service: Seq<char>) -> metric::LabelsView {
    seq![("type"@, kind), ("service"@, service)]
}

/// A change of the gauge of open connections.
pub open spec fn active_update(
    kind: Seq<char>,
    service: Seq<char>,
    change: Change,
) -> metric::UpdateView {
    metric::UpdateView {
        metric: metric::HTTP_REQUESTS_ACTIVE@,
        labels: active_labels(kind, service),
        change,
    }
}

/// One more request.
pub open spec fn request_counted(
    request: RequestView,
    status: u16,
    kind: TrafficKind,
) -> metric::UpdateView {
    metric::UpdateView {
        metric: metric::HTTP_REQUESTS_TOTAL@,
        labels: seq![
            ("route"@, request.route),
            ("method"@, request.method),
            ("status"@, text::decimal(status as nat)),
            ("type"@, kind.label_view()),
            ("service"@, request.service),
        ],
        change: Change::Count,
    }
}

/// The duration of the request of `guard`, up to `now`.
pub open spec fn duration_observed(guard: GuardView, now: u128) -> metric::UpdateView {
    metric::UpdateView {
        metric: metric::HTTP_REQUEST_DURATION@,
        labels: seq![
            ("route"@, guard.request.route),
            ("method"@, guard.request.method),
            ("type"@, guard.kind.label_view()),
            ("service"@, guard.request.service),
        ],
        change: Change::Observe(clock::millis_between(guard.request.start, now)),
    }
}

/// A change of the gauge of open connections under a kind and a service.
pub fn change_active(kind: &str, service: &str, change: Change) -> (update: Update)
    ensures
        update@ == active_update(kind@, service@, change),
{
    let update = Update {
        metric: metric::HTTP_REQUESTS_ACTIVE,
        labels: vec![metric::label("type", kind), metric::label("service", service)],
        change,
    };
    assert(update@.labels =~= active_labels(kind@, service@));
    update
}

/// What is known of a request before it is answered.
#[derive(Debug)]
pub struct Request {
    route: String,
    method: String,
    service: String,
    start: u128,
}

/// A request over characters.
pub struct RequestView {
    pub route: Seq<char>,
    pub method: Seq<char>,
    pub service: Seq<char>,
    pub start: u128,
}

impl View for Request {
    type V = RequestView;

    closed spec fn view(&self) -> RequestView {
        RequestView {
            route: self.route@,
            method: self.method@,
            service: self.service@,
            start: self.start,
        }
    }
}

/// The service label of a request with an optional tag.
pub open spec fn service_label(tag: Option<ServiceTag>) -> Seq<char> {
    match tag {
        Some(t) => t@,
        None => DEFAULT_SERVICE@,
    }
}

/// The duration of an open connection starts here and is reported when the
/// connection is over.
#[derive(Debug)]
pub struct ConnectionGuard {
    kind: TrafficKind,
    request: Request,
}

/// A guard over characters.
pub struct GuardView {
    pub kind: TrafficKind,
    pub request: RequestView,
}

impl View for ConnectionGuard {
    type V = GuardView;

    closed spec fn view(&self) -> GuardView {
        GuardView { kind: self.kind, request: self.request@ }
    }
}

/// What a connection reports when it is over.
pub open spec fn closing_updates(guard: GuardView, now: u128) -> Seq<metric::UpdateView> {
    seq![
        active_update(guard.kind.label_view(), guard.request.service, Change::Down),
        duration_observed(guard, now),
    ]
}

impl ConnectionGuard {
    /// What the connection reports when it is over.
    pub fn close(self, now: u128) -> (updates: Vec<Update>)
        ensures
            metric::update_views(updates@) == closing_updates(self@, now),
    {
        let millis = clock::elapsed_millis(self.request.start, now);
        let down = change_active(self.kind.label(), self.request.service.as_str(), Change::Down);
        let duration = Update {
            metric: metric::HTTP_REQUEST_DURATION,
            labels: vec![
                metric::label("route", self.request.route.as_str()),
                metric::label("method", self.request.method.as_str()),
                metric::label("type", self.kind.label()),
                metric::label("service", self.request.service.as_str()),
            ],
            change: Change::Observe(millis),
        };
        assert(duration@.labels =~= duration_observed(self@, now).labels);
        let updates = vec![down, duration];
        assert(metric::update_views(updates@) =~= closing_updates(self@, now));
        updates
    }
}

/// What a poll of a body or a stream came back with.
#[derive(Clone, Copy, Debug, PartialEq, Eq, Structural)]
pub enum Polled {
    /// Nothing yet.
    Pending,
    /// A frame or an item, or an error in its place.
    Item,
    /// The end.
    Finished,
}

/// Watches the body of a response and holds the guard of its connection for as
/// long as the body goes on.
#[derive(Debug)]
pub struct BodyMonitor {
    guard: Option<ConnectionGuard>,
}

impl View for BodyMonitor {
    type V = Option<GuardView>;

    closed spec fn view(&self) -> Option<GuardView> {
        match self.guard {
            Some(guard) => Some(guard@),
            None => None,
        }
    }
}

/// What is reported when a guard is let go of, if there is one.
pub open spec fn released(guard: Option<GuardView>, now: u128) -> Seq<metric::UpdateView> {
    match guard {
        Some(g) => closing_updates(g, now),
        None => Seq::empty(),
    }
}

/// The guard that is still held after a poll.
pub open spec fn held_after(guard: Option<GuardView>, polled: Polled) -> Option<GuardView> {
    if polled is Finished {
        None
    } else {
        guard
    }
}

/// What a poll reports.
pub open spec fn poll_reports(
    guard: Option<GuardView>,
    polled: Polled,
    now: u128,
) -> Seq<metric::UpdateView> {
    if polled is Finished {
        released(guard, now)
    } else {
        Seq::empty()
    }
}

impl BodyMonitor {
    /// Takes in what a poll of the body came back with. The end of the body
    /// ends the connection; anything else changes nothing.
    pub fn poll_frame(&mut self, polled: Polled, now: u128) -> (updates: Vec<Update>)
        ensures
            final(self)@ == held_after(old(self)@, polled),
            metric::update_views(updates@) == poll_reports(old(self)@, polled, now),
    {
        let updates = match polled {
            Polled::Finished => match self.guard.take() {
                Some(guard) => guard.close(now),
                None => Vec::new(),
            },
            _ => Vec::new(),
        };
        assert(metric::update_views(updates@) =~= poll_reports(old(self)@, polled, now));
        updates
    }

    /// The body is dropped: the connection ends now if it has not ended before.
    pub fn close(self, now: u128) -> (updates: Vec<Update>)
        ensures
            metric::update_views(updates@) == released(self@, now),
    {
        let updates = match self.guard {
            Some(guard) => guard.close(now),
            None => Vec::new(),
        };
        assert(metric::update_views(updates@) =~= released(self@, now));
        updates
    }
}

/// What a request reports when its response is known.
pub open spec fn response_reports(
    request: RequestView,
    status: u16,
    kind: TrafficKind,
) -> Seq<metric::UpdateView> {
    if kind is WebSocket {
        seq![request_counted(request, status, kind)]
    } else {
        seq![
            request_counted(request, status, kind),
            active_update(kind.label_view(), request.service, Change::Up),
        ]
    }
}

/// The connection that stays open after a response: none after a WebSocket
/// handshake, whose session is tracked on its own.
pub open spec fn opened(request: RequestView, kind: TrafficKind) -> Option<GuardView> {
    if kind is WebSocket {
        None
    } else {
        Some(GuardView { kind, request })
    }
}

impl Request {
    /// A request that comes in at `now`, with the route pattern that matched it,
    /// its method and its service tag.
    pub fn begin(
        matched: Option<&str>,
        method: &str,
        tag: Option<ServiceTag>,
        now: u128,
    ) -> (request: Self)
        ensures
            request@ == (RequestView {
                route: service::route_label(text::text_view(matched)),
                method: method@,
                service: service_label(tag),
                start: now,
            }),
    {
        let route = service::matched_route(matched);
        let service = match tag {
            Some(t) => t.0,
            None => String::from(DEFAULT_SERVICE),
        };
        Request { route, method: String::from(method), service, start: now }
    }

    /// The response is known: the request is counted and, unless it was a
    /// WebSocket handshake, its connection is open until its body is over.
    pub fn respond(self, status: u16, content_type: Option<&[u8]>) -> (out: (
        Vec<Update>,
        Option<BodyMonitor>,
    ))
        ensures
            metric::update_views(out.0@) == response_reports(
                self@,
                status,
                kind_of(status, header_view(content_type)),
            ),
            match out.1 {
                Some(monitor) => monitor@ == opened(
                    self@,
                    kind_of(status, header_view(content_type)),
                ) && monitor@ is Some,
                None => opened(self@, kind_of(status, header_view(content_type))) is None,
            },
    {
        let kind = classify(status, content_type);
        let count = Update {
            metric: metric::HTTP_REQUESTS_TOTAL,
            labels: vec![
                metric::label("route", self.route.as_str()),
                metric::label("method", self.method.as_str()),
                metric::label("status", text::to_decimal(status).as_str()),
                metric::label("type", kind.label()),
                metric::label("service", self.service.as_str()),
            ],
            change: Change::Count,
        };
        assert(count@.labels =~= request_counted(self@, status, kind).labels);
        match kind {
            TrafficKind::WebSocket => {
                let updates = vec![count];
                assert(metric::update_views(updates@) =~= response_reports(self@, status, kind));
                (updates, None)
            },
            _ => {
                let up = change_active(kind.label(), self.service.as_str(), Change::Up);
                let updates = vec![count, up];
                assert(metric::update_views(updates@) =~= response_reports(self@, status, kind));
                (updates, Some(BodyMonitor { guard: Some(ConnectionGuard { kind, request: self }) }))
            },
        }
    }
}

/// The three kinds of traffic have three labels.
pub proof fn law_kind_labels_differ(a: TrafficKind, b: TrafficKind)
    requires
        a != b,
    ensures
        a.label_view() != b.label_view(),
{
    reveal_strlit("websocket");
    reveal_strlit("sse");
    reveal_strlit("http");
    assert("websocket"@.len() == 9 && "sse"@.len() == 3 && "http"@.len() == 4);
}

/// The ASCII case of a content type does not matter.
pub proof fn law_content_type_case_is_ignored(a: Seq<char>, b: Seq<char>)
    requires
        text::ascii_lowercase(a) == text::ascii_lowercase(b),
    ensures
        announces_events(a) == announces_events(b),
        announces_events(text::ascii_lowercase(a)) == announces_events(a),
{
    assert(text::ascii_lowercase(text::ascii_lowercase(a)) =~= text::ascii_lowercase(a));
}

/// The guard that is still held after a run of polls, each with the time of its answer.
pub open spec fn held_after_all(
    guard: Option<GuardView>,
    polls: Seq<(Polled, u128)>,
) -> Option<GuardView>
    decreases polls.len(),
{
    if polls.len() == 0 {
        guard
    } else {
        held_after(held_after_all(guard, polls.drop_last()), polls.last().0)
    }
}

/// What a run of polls reports, each with the time of its answer.
pub open spec fn all_poll_reports(
    guard: Option<GuardView>,
    polls: Seq<(Polled, u128)>,
) -> Seq<metric::UpdateView>
    decreases polls.len(),
{
    if polls.len() == 0 {
        Seq::empty()
    } else {
        all_poll_reports(guard, polls.drop_last()) + poll_reports(
            held_after_all(guard, polls.drop_last()),
            polls.last().0,
            polls.last().1,
        )
    }
}

/// When a body that was polled so and then dropped at `dropped` is over: at its
/// first end, or when it is dropped.
pub open spec fn over_at(polls: Seq<(Polled, u128)>, dropped: u128) -> u128
    decreases polls.len(),
{
    if polls.len() == 0 {
        dropped
    } else if polls[0].0 is Finished {
        polls[0].1
    } else {
        over_at(polls.drop_first(), dropped)
    }
}

/// Whether a run of polls came to the end of the body.
pub open spec fn reaches_end(polls: Seq<(Polled, u128)>) -> bool {
    exists|i: int| 0 <= i < polls.len() && (#[trigger] polls[i]).0 is Finished
}

pub(crate) proof fn lemma_over_at_last(polls: Seq<(Polled, u128)>, dropped: u128)
    requires
        polls.len() > 0,
    ensures
        over_at(polls, dropped) == over_at(
            polls.drop_last(),
            if polls.last().0 is Finished {
                polls.last().1
            } else {
                dropped
            },
        ),
    decreases polls.len(),
{
    if polls.len() > 1 && !(polls[0].0 is Finished) {
        lemma_over_at_last(polls.drop_first(), dropped);
        assert(polls.drop_first().drop_last() =~= polls.drop_last().drop_first());
        assert(polls.drop_last()[0] == polls[0]);
    } else if polls.len() > 1 {
        assert(polls.drop_last()[0] == polls[0]);
    } else {
        assert(polls.drop_last().len() == 0);
        reveal_with_fuel(over_at, 2);
    }
}

/// Nothing is reported while the body goes on, and all is reported once it has ended.
pub proof fn law_reports_wait_for_the_end(guard: GuardView, polls: Seq<(Polled, u128)>)
    ensures
        !reaches_end(polls) ==> held_after_all(Some(guard), polls) == Some(guard)
            && all_poll_reports(Some(guard), polls) == Seq::<metric::UpdateView>::empty(),
        reaches_end(polls) ==> held_after_all(Some(guard), polls) is None && all_poll_reports(
            Some(guard),
            polls,
        ) == closing_updates(guard, over_at(polls, 0)),
    decreases polls.len(),
{
    if polls.len() > 0 {
        let before = polls.drop_last();
        law_reports_wait_for_the_end(guard, before);
        if reaches_end(before) {
            let i = choose|i: int| 0 <= i < before.len() && (#[trigger] before[i]).0 is Finished;
            assert(polls[i] == before[i]);
            lemma_over_at_last(polls, 0);
            lemma_over_at_reached(before, 0, polls.last().1);
            assert(all_poll_reports(Some(guard), polls) =~= all_poll_reports(Some(guard), before));
        } else if polls.last().0 is Finished {
            assert(polls[polls.len() - 1].0 is Finished);
            lemma_over_at_last(polls, 0);
            lemma_over_at_unreached(before, polls.last().1);
            assert(all_poll_reports(Some(guard), polls) =~= closing_updates(
                guard,
                polls.last().1,
            ));
        } else {
            assert forall|i: int| 0 <= i < polls.len() implies !((#[trigger] polls[i]).0 is Finished) by {
                if i < before.len() {
                    assert(polls[i] == before[i]);
                }
            }
            assert(all_poll_reports(Some(guard), polls) =~= Seq::empty());
        }
    }
}

pub(crate) proof fn lemma_over_at_unreached(polls: Seq<(Polled, u128)>, dropped: u128)
    requires
        !reaches_end(polls),
    ensures
        over_at(polls, dropped) == dropped,
    decreases polls.len(),
{
    if polls.len() > 0 {
        let tail = polls.drop_first();
        assert(!(polls[0].0 is Finished));
        assert forall|i: int| 0 <= i < tail.len() implies !((#[trigger] tail[i]).0 is Finished) by {
            assert(tail[i] == polls[i + 1]);
        }
        lemma_over_at_unreached(tail, dropped);
    }
}

pub(crate) proof fn lemma_over_at_reached(polls: Seq<(Polled, u128)>, dropped: u128, other: u128)
    requires
        reaches_end(polls),
    ensures
        over_at(polls, dropped) == over_at(polls, other),
    decreases polls.len(),
{
    if !(polls[0].0 is Finished) {
        let tail = polls.drop_first();
        let i = choose|i: int| 0 <= i < polls.len() && (#[trigger] polls[i]).0 is Finished;
        assert(tail[i - 1] == polls[i]);
        lemma_over_at_reached(tail, dropped, other);
    }
}

/// However a body is polled, and whether it is read to its end or dropped
/// before: over its whole life its connection closes once, and its one duration
/// runs to the end of the body, or to the drop where the body did not end.
pub proof fn law_connection_closes_once(
    guard: GuardView,
    polls: Seq<(Polled, u128)>,
    dropped: u128,
)
    ensures
        all_poll_reports(Some(guard), polls) + released(
            held_after_all(Some(guard), polls),
            dropped,
        ) == closing_updates(guard, over_at(polls, dropped)),
{
    law_reports_wait_for_the_end(guard, polls);
    let all = all_poll_reports(Some(guard), polls) + released(
        held_after_all(Some(guard), polls),
        dropped,
    );
    if reaches_end(polls) {
        lemma_over_at_reached(polls, 0, dropped);
        assert(all =~= closing_updates(guard, over_at(polls, dropped)));
    } else {
        lemma_over_at_unreached(polls, dropped);
        assert(all =~= closing_updates(guard, dropped));
    }
}

/// The gauge of open connections counts a request from its response to the end
/// of its body, under one set of labels: it reads one more while the body goes
/// on, and is back where it was when the body is over. A WebSocket handshake
/// leaves it alone.
pub proof fn law_active_gauge_balances(
    request: RequestView,
    status: u16,
    kind: TrafficKind,
    polls: Seq<(Polled, u128)>,
    dropped: u128,
    labels: metric::LabelsView,
)
    ensures
        kind is WebSocket ==> metric::active_after(response_reports(request, status, kind), labels)
            == 0,
        !(kind is WebSocket) && !reaches_end(polls) ==> metric::active_after(
            response_reports(request, status, kind) + all_poll_reports(opened(request, kind), polls),
            labels,
        ) == (if labels == active_labels(kind.label_view(), request.service) {
            1int
        } else {
            0
        }),
        !(kind is WebSocket) ==> metric::active_after(
            response_reports(request, status, kind) + all_poll_reports(opened(request, kind), polls)
                + released(held_after_all(opened(request, kind), polls), dropped),
            labels,
        ) == 0,
{
    let first = response_reports(request, status, kind);
    reveal_with_fuel(metric::active_after, 3);
    if kind is WebSocket {
        assert(first.drop_last() =~= Seq::empty());
    } else {
        let guard = GuardView { kind, request };
        assert(first.drop_last() =~= seq![request_counted(request, status, kind)]);
        assert(first.drop_last().drop_last() =~= Seq::empty());
        law_connection_closes_once(guard, polls, dropped);
        law_reports_wait_for_the_end(guard, polls);
        let polled = all_poll_reports(Some(guard), polls);
        let rest = released(held_after_all(Some(guard), polls), dropped);
        let closing = closing_updates(guard, over_at(polls, dropped));
        assert(closing.drop_last().drop_last() =~= Seq::empty());
        assert(closing.drop_last() =~= seq![closing[0]]);
        assert(first + polled + rest =~= first + closing);
        metric::lemma_active_after_concat(first, closing, labels);
        metric::lemma_active_after_concat(first, polled, labels);
    }
}

/// Over its whole life a request is counted once, when its response is known,
/// and has one duration; a WebSocket handshake has none, for its session is
/// tracked on its own.
pub proof fn law_requests_are_counted_once(
    request: RequestView,
    status: u16,
    kind: TrafficKind,
    polls: Seq<(Polled, u128)>,
    dropped: u128,
)
    ensures
        ({
            let open = opened(request, kind);
            let life = response_reports(request, status, kind) + all_poll_reports(open, polls)
                + released(held_after_all(open, polls), dropped);
            &&& life[0] == request_counted(request, status, kind)
            &&& metric::times_updated(life, metric::HTTP_REQUESTS_TOTAL@) == 1
            &&& metric::times_updated(life, metric::HTTP_REQUEST_DURATION@) == (if kind is WebSocket {
                0nat
            } else {
                1
            })
        }),
{
    let open = opened(request, kind);
    let first = response_reports(request, status, kind);
    let life = first + all_poll_reports(open, polls) + released(
        held_after_all(open, polls),
        dropped,
    );
    metric::lemma_request_metrics_differ();
    reveal_with_fuel(metric::times_updated, 5);
    if kind is WebSocket {
        lemma_nothing_held(polls, dropped);
        assert(life =~= first);
        assert(life.drop_last() =~= Seq::empty());
    } else {
        let guard = GuardView { kind, request };
        law_connection_closes_once(guard, polls, dropped);
        let closing = closing_updates(guard, over_at(polls, dropped));
        assert(life =~= first + closing);
        assert(life.drop_last() =~= seq![first[0], first[1], closing[0]]);
        assert(life.drop_last().drop_last() =~= seq![first[0], first[1]]);
        assert(life.drop_last().drop_last().drop_last() =~= seq![first[0]]);
        assert(life.drop_last().drop_last().drop_last().drop_last() =~= Seq::empty());
    }
}

proof fn lemma_nothing_held(polls: Seq<(Polled, u128)>, dropped: u128)
    ensures
        held_after_all(None, polls) is None,
        all_poll_reports(None, polls) == Seq::<metric::UpdateView>::empty(),
        released(held_after_all(None, polls), dropped) == Seq::<metric::UpdateView>::empty(),
    decreases polls.len(),
{
    if polls.len() > 0 {
        lemma_nothing_held(polls.drop_last(), dropped);
        assert(all_poll_reports(None, polls) =~= Seq::empty());
    }
}

/// A request that was tagged by a service map is reported under the service
/// that the map gives its route, and one that was not under the default.
pub proof fn law_tag_becomes_label(
    tag: ServiceTag,
    map: service::ServiceMapView,
    matched: Option<Seq<char>>,
)
    requires
        tag@ == map.service_of(service::route_label(matched)),
    ensures
        service_label(Some(tag)) == map.service_of(service::route_label(matched)),
        service_label(None) == DEFAULT_SERVICE@,
{
}

/// The kinds are labelled by their names.
pub proof fn law_kinds_are_labelled_by_name(kind: TrafficKind, l: &'static str)
    requires
        call_ensures(TrafficKind::label, (kind,), l),
    ensures
        kind == TrafficKind::WebSocket ==> l@ == "websocket"@,
        kind == TrafficKind::Sse ==> l@ == "sse"@,
        kind == TrafficKind::Http ==> l@ == "http"@,
{
}

/// A content type announces events exactly where it begins with that of event
/// streams, in whatever case.
pub proof fn law_event_streams_announce_themselves(content_type: &str, events: bool)
    requires
        call_ensures(is_event_stream, (content_type,), events),
    ensures
        events == text::begins_in_any_case(content_type@, "text/event-stream"@),
{
    text::lemma_lower_case_prefix(content_type@, "text/event-stream"@);
}

/// Whether the bytes of a header value are all visible ASCII, spaces or tabs, and
/// begin with `text/event-stream` when the case of the letters is ignored.
pub open spec fn begins_event_stream(raw: Seq<u8>) -> bool {
    &&& forall|i: int| 0 <= i < raw.len() ==> #[trigger] raw[i] == 9 || 32 <= raw[i] <= 126
    &&& "text/event-stream"@.len() <= raw.len()
    &&& forall|i: int|
        0 <= i < "text/event-stream"@.len() ==> {
            let c = #[trigger] "text/event-stream"@[i];
            raw[i] as int == c as int || ('a' <= c && c <= 'z' && raw[i] as int == c as int - 32)
        }
}

proof fn lemma_begins_event_stream(raw: Seq<u8>)
    ensures
        (header_text_view(raw) is Some && announces_events(header_text_view(raw)->0))
            == begins_event_stream(raw),
{
    let wanted = "text/event-stream"@;
    reveal_strlit("text/event-stream");
    if header_text_view(raw) is Some {
        let t = header_text_view(raw)->0;
        assert(t.len() == raw.len());
        assert forall|i: int| 0 <= i < raw.len() implies t[i] as int == #[trigger] raw[i] as int by {
            assert(is_header_text_byte(raw[i]));
        }
        text::lemma_lower_case_prefix(t, wanted);
        assert forall|i: int| 0 <= i < raw.len() implies #[trigger] raw[i] == 9 || 32 <= raw[i]
            <= 126 by {
            assert(is_header_text_byte(raw[i]));
        }
        if text::begins_in_any_case(t, wanted) {
            assert forall|i: int| 0 <= i < wanted.len() implies {
                let c = #[trigger] wanted[i];
                raw[i] as int == c as int || ('a' <= c && c <= 'z' && raw[i] as int == c as int
                    - 32)
            } by {
                assert(t[i] as int == raw[i] as int);
            }
        }
        if begins_event_stream(raw) {
            assert forall|i: int| 0 <= i < wanted.len() implies {
                let c = #[trigger] wanted[i];
                &&& !('A' <= c && c <= 'Z')
                &&& t[i] == c || ('a' <= c && c <= 'z' && t[i] as int == c as int - 32)
            } by {
                assert(t[i] as int == raw[i] as int);
            }
        }
    } else if begins_event_stream(raw) {
        assert forall|i: int| 0 <= i < raw.len() implies is_header_text_byte(#[trigger] raw[i]) by {}
    }
}

/// Apart from WebSocket handshakes the kind of traffic is that of the content
/// type alone: events exactly where the header is text that begins with the
/// seventeen characters of an event stream in any case, plain HTTP otherwise.
pub proof fn law_content_types_tell_kinds(status: u16, content_type: Option<Seq<u8>>)
    requires
        status != 101,
    ensures
        "text/event-stream"@.len() == 17,
        kind_of(status, content_type) == TrafficKind::Sse <==> content_type is Some
            && begins_event_stream(content_type->0),
        kind_of(status, content_type) != TrafficKind::Sse ==> kind_of(status, content_type)
            == TrafficKind::Http,
{
    reveal_strlit("text/event-stream");
    if content_type is Some {
        lemma_begins_event_stream(content_type->0);
    }
}

/// A status says one thing of the kind of traffic: whether it is a WebSocket
/// handshake. All other statuses are alike.
pub proof fn law_statuses_tell_handshakes_only(a: u16, b: u16, content_type: Option<Seq<u8>>)
    ensures
        kind_of(a, content_type) == TrafficKind::WebSocket <==> a == 101,
        a != 101 && b != 101 ==> kind_of(a, content_type) == kind_of(b, content_type),
{
}

/// A response is told apart by its handshake status and else by the bytes of its
/// content type.
pub proof fn law_responses_are_told_apart(
    status: u16,
    content_type: Option<&[u8]>,
    kind: TrafficKind,
)
    requires
        call_ensures(classify, (status, content_type), kind),
    ensures
        kind == TrafficKind::WebSocket <==> status == 101,
        kind == TrafficKind::Sse <==> status != 101 && content_type is Some && begins_event_stream(
            content_type->0@,
        ),
{
    law_statuses_tell_handshakes_only(status, status, header_view(content_type));
    if status != 101 {
        law_content_types_tell_kinds(status, header_view(content_type));
    }
}

/// A change of the gauge is one of the gauge of open connections, under the kind
/// and the service, and as asked for.
pub proof fn law_gauge_changes(kind: &str, service: &str, change: Change, update: Update)
    requires
        call_ensures(change_active, (kind, service, change), update),
    ensures
        metric::is_update_of(
            update,
            "http_requests_active"@,
            seq![("type"@, kind@), ("service"@, service@)],
        ),
        update.change == change,
{
    metric::lemma_labels_carried(update, update@.labels);
}

/// The duration that a closing connection observes is the whole milliseconds from
/// the beginning of its request to its end.
pub proof fn law_closing_durations(guard: GuardView, now: u128)
    ensures
        closing_updates(guard, now).len() == 2,
        closing_updates(guard, now)[1].metric == "http_request_duration_seconds"@,
        closing_updates(guard, now)[1].change matches Change::Observe(millis) && {
            &&& guard.request.start <= now ==> millis * 1_000_000 <= now - guard.request.start < (
            millis + 1) * 1_000_000
            &&& now <= guard.request.start ==> millis == 0
        },
        closing_updates(guard, now)[0].metric == "http_requests_active"@,
        closing_updates(guard, now)[0].change == Change::Down,
{
    clock::lemma_millis_between(guard.request.start, now);
}

/// A connection that closes later does not observe a shorter duration, and all
/// else that it reports is the same.
pub proof fn law_longer_connections_take_longer(guard: GuardView, earlier: u128, later: u128)
    requires
        earlier <= later,
    ensures
        closing_updates(guard, earlier)[0] == closing_updates(guard, later)[0],
        closing_updates(guard, earlier)[1].labels == closing_updates(guard, later)[1].labels,
        closing_updates(guard, earlier)[1].change matches Change::Observe(short)
            && closing_updates(guard, later)[1].change matches Change::Observe(long) && short
            <= long,
{
    clock::law_durations_grow(guard.request.start, earlier, later);
}

/// What a closing guard reports is one connection less and the whole milliseconds
/// since its request began, under the labels of its request.
pub proof fn law_guards_close(guard: ConnectionGuard, now: u128, updates: Vec<Update>)
    requires
        call_ensures(ConnectionGuard::close, (guard, now), updates),
    ensures
        updates@.len() == 2,
        updates@[0].change == Change::Down,
        updates@[1].metric@ == "http_request_duration_seconds"@,
        updates@[1].change matches Change::Observe(millis) && {
            &&& guard@.request.start <= now ==> millis * 1_000_000 <= now - guard@.request.start < (
            millis + 1) * 1_000_000
            &&& now <= guard@.request.start ==> millis == 0
        },
{
    law_closing_durations(guard@, now);
    lemma_updates_seen(updates@, 2);
}

proof fn lemma_updates_seen(updates: Seq<Update>, n: int)
    requires
        metric::update_views(updates).len() == n,
    ensures
        updates.len() == n,
        forall|i: int|
            0 <= i < n ==> #[trigger] updates[i]@ == metric::update_views(updates)[i],
{
    assert forall|i: int| 0 <= i < n implies #[trigger] updates[i]@ == metric::update_views(
        updates,
    )[i] by {}
}

/// Whether a label value is the service of a request: that of its tag, or the
/// default where it has none.
pub open spec fn is_service_of(service: Seq<char>, tag: Option<ServiceTag>) -> bool {
    &&& tag is Some ==> service == (tag->0).0@
    &&& tag is None ==> service == "gateway"@
}

/// Whether a label value is the route of a request: the pattern that matched it,
/// or the label for none.
pub open spec fn is_route_of(route: Seq<char>, matched: Option<&str>) -> bool {
    &&& matched is Some ==> route == matched->0@
    &&& matched is None ==> route == "unmatched_route"@
}

/// Whether a label value names a kind of traffic.
pub open spec fn is_name_of(name: Seq<char>, kind: TrafficKind) -> bool {
    &&& kind == TrafficKind::WebSocket ==> name == "websocket"@
    &&& kind == TrafficKind::Sse ==> name == "sse"@
    &&& kind == TrafficKind::Http ==> name == "http"@
}

/// A request is counted once when its response is known, whatever the status:
/// under its route, its method, the decimal text of the status, the kind of
/// traffic and its service. Unless it is a WebSocket handshake, which is counted
/// and no more, one more connection is then open under the same kind and service.
pub proof fn law_responses_are_counted(
    matched: Option<&str>,
    method: &str,
    tag: Option<ServiceTag>,
    start: u128,
    request: Request,
    status: u16,
    content_type: Option<&[u8]>,
    kind: TrafficKind,
    out: (Vec<Update>, Option<BodyMonitor>),
    route: Seq<char>,
    name: Seq<char>,
    service: Seq<char>,
)
    requires
        call_ensures(Request::begin, (matched, method, tag, start), request),
        call_ensures(classify, (status, content_type), kind),
        call_ensures(Request::respond, (request, status, content_type), out),
        is_route_of(route, matched),
        is_name_of(name, kind),
        is_service_of(service, tag),
    ensures
        out.0@.len() == (if status == 101 {
            1int
        } else {
            2
        }),
        out.0@[0].change == Change::Count,
        out.0@[0].labels@.len() == 5,
        text::writes_number(out.0@[0].labels@[2].value@, status as int),
        metric::is_update_of(
            out.0@[0],
            "http_requests_total"@,
            seq![
                ("route"@, route),
                ("method"@, method@),
                ("status"@, out.0@[0].labels@[2].value@),
                ("type"@, name),
                ("service"@, service),
            ],
        ),
        status != 101 ==> out.0@[1].change == Change::Up && metric::is_update_of(
            out.0@[1],
            "http_requests_active"@,
            seq![("type"@, name), ("service"@, service)],
        ),
        out.1 is None <==> status == 101,
{
    law_responses_are_told_apart(status, content_type, kind);
    lemma_updates_seen(
        out.0@,
        if status == 101 {
            1
        } else {
            2
        },
    );
    text::law_decimals_read_back(status as nat);
    metric::lemma_labels_carried(out.0@[0], out.0@[0]@.labels);
    if status != 101 {
        metric::lemma_labels_carried(out.0@[1], out.0@[1]@.labels);
    }
}

/// Whether these updates are those of a connection that began at `start` and is
/// over at `now`: one connection less under its kind and service, and one
/// duration under its route, method, kind and service, of the whole milliseconds
/// between the two.
pub open spec fn ends_connection(
    updates: Seq<Update>,
    route: Seq<char>,
    method: Seq<char>,
    name: Seq<char>,
    service: Seq<char>,
    start: u128,
    now: u128,
) -> bool {
    &&& updates.len() == 2
    &&& updates[0].change == Change::Down
    &&& metric::is_update_of(
        updates[0],
        "http_requests_active"@,
        seq![("type"@, name), ("service"@, service)],
    )
    &&& metric::is_update_of(
        updates[1],
        "http_request_duration_seconds"@,
        seq![("route"@, route), ("method"@, method), ("type"@, name), ("service"@, service)],
    )
    &&& updates[1].change matches Change::Observe(millis) && {
        &&& start <= now ==> millis * 1_000_000 <= now - start < (millis + 1) * 1_000_000
        &&& now <= start ==> millis == 0
    }
}

proof fn lemma_ends_connection(guard: GuardView, updates: Seq<Update>, now: u128)
    requires
        metric::update_views(updates) == closing_updates(guard, now),
    ensures
        ends_connection(
            updates,
            guard.request.route,
            guard.request.method,
            guard.kind.label_view(),
            guard.request.service,
            guard.request.start,
            now,
        ),
{
    law_closing_durations(guard, now);
    lemma_updates_seen(updates, 2);
    metric::lemma_labels_carried(updates[0], updates[0]@.labels);
    metric::lemma_labels_carried(updates[1], updates[1]@.labels);
}

/// From the request to the end of its body: polls that do not come to the end
/// report nothing and leave the connection open; the end of the body closes the
/// connection, with the duration from the arrival of the request; and after that
/// nothing is reported any more, neither by a poll nor by the drop.
pub proof fn law_bodies_end_connections(
    matched: Option<&str>,
    method: &str,
    tag: Option<ServiceTag>,
    start: u128,
    request: Request,
    status: u16,
    content_type: Option<&[u8]>,
    kind: TrafficKind,
    out: (Vec<Update>, Option<BodyMonitor>),
    monitor: &mut BodyMonitor,
    polled: Polled,
    now: u128,
    updates: Vec<Update>,
    later: u128,
    rest: Vec<Update>,
    route: Seq<char>,
    name: Seq<char>,
    service: Seq<char>,
)
    requires
        call_ensures(Request::begin, (matched, method, tag, start), request),
        call_ensures(classify, (status, content_type), kind),
        call_ensures(Request::respond, (request, status, content_type), out),
        out.1 == Some(*old(monitor)),
        call_ensures(BodyMonitor::poll_frame, (monitor, polled, now), updates),
        call_ensures(BodyMonitor::close, (*final(monitor), later), rest),
        is_route_of(route, matched),
        is_name_of(name, kind),
        is_service_of(service, tag),
    ensures
        polled == Polled::Finished ==> {
            &&& ends_connection(updates@, route, method@, name, service, start, now)
            &&& rest@.len() == 0
        },
        polled != Polled::Finished ==> {
            &&& updates@.len() == 0
            &&& ends_connection(rest@, route, method@, name, service, start, later)
        },
{
    law_responses_are_told_apart(status, content_type, kind);
    let guard = GuardView { kind, request: request@ };
    assert(old(monitor)@ == Some(guard));
    if polled == Polled::Finished {
        lemma_ends_connection(guard, updates@, now);
        lemma_updates_seen(rest@, 0);
    } else {
        lemma_updates_seen(updates@, 0);
        lemma_ends_connection(guard, rest@, later);
    }
}

/// A body that is dropped before it is polled ends its connection at the drop.
pub proof fn law_dropped_bodies_end_connections(
    matched: Option<&str>,
    method: &str,
    tag: Option<ServiceTag>,
    start: u128,
    request: Request,
    status: u16,
    content_type: Option<&[u8]>,
    kind: TrafficKind,
    out: (Vec<Update>, Option<BodyMonitor>),
    now: u128,
    updates: Vec<Update>,
    route: Seq<char>,
    name: Seq<char>,
    service: Seq<char>,
)
    requires
        call_ensures(Request::begin, (matched, method, tag, start), request),
        call_ensures(classify, (status, content_type), kind),
        call_ensures(Request::respond, (request, status, content_type), out),
        out.1 is Some,
        call_ensures(BodyMonitor::close, (out.1->0, now), updates),
        is_route_of(route, matched),
        is_name_of(name, kind),
        is_service_of(service, tag),
    ensures
        ends_connection(updates@, route, method@, name, service, start, now),
{
    law_responses_are_told_apart(status, content_type, kind);
    lemma_ends_connection(GuardView { kind, request: request@ }, updates@, now);
}

/// A poll that does not come to the end changes nothing and reports nothing; one
/// that does leaves nothing open, and reports what dropping the body would have
/// reported.
pub proof fn law_polls_wait_for_the_end(
    monitor: &mut BodyMonitor,
    polled: Polled,
    now: u128,
    updates: Vec<Update>,
    dropped: Vec<Update>,
)
    requires
        call_ensures(BodyMonitor::poll_frame, (monitor, polled, now), updates),
        call_ensures(BodyMonitor::close, (*old(monitor), now), dropped),
    ensures
        polled != Polled::Finished ==> updates@.len() == 0 && final(monitor)@ == old(monitor)@,
        polled == Polled::Finished ==> final(monitor)@ is None && metric::update_views(updates@)
            == metric::update_views(dropped@),
        old(monitor)@ is None ==> updates@.len() == 0 && dropped@.len() == 0,
{
    lemma_updates_seen(updates@, metric::update_views(updates@).len() as int);
    lemma_updates_seen(dropped@, metric::update_views(dropped@).len() as int);
}

} // verus!
