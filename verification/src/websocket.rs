//! WebSocket sessions: open from the handshake to the end of the handler.

use vstd::prelude::*;

use crate::clock;
use crate::metric;
use crate::metric::{Change, Update};
use crate::traffic;

verus! {

/// The kind of connection that a WebSocket session is.
pub const SESSION_KIND: &'static str = "websocket_session";

/// A WebSocket session that is open.
#[derive(Debug)]
pub struct WsTracker {
    service: &'static str,
    start: u128,
}

/// A session over characters.
pub struct SessionView {
    pub service: Seq<char>,
    pub start: u128,
}

impl View for WsTracker {
    type V = SessionView;

    closed spec fn view(&self) -> SessionView {
        SessionView { service: self.service@, start: self.start }
    }
}

/// What a session reports when it opens.
pub open spec fn session_opened(service: Seq<char>) -> metric::UpdateView {
    traffic::active_update(SESSION_KIND@, service, Change::Up)
}

/// What a session reports when it is over.
pub open spec fn session_closed(session: SessionView, now: u128) -> Seq<metric::UpdateView> {
    seq![
        traffic::active_update(SESSION_KIND@, session.service, Change::Down),
        metric::UpdateView {
            metric: metric::WEBSOCKET_SESSION_DURATION@,
            labels: seq![("service"@, session.service)],
            change: Change::Observe(clock::millis_between(session.start, now)),
        },
    ]
}

impl WsTracker {
    /// A session of `service` that opens at `now`, and what it reports.
    pub fn new(service: &'static str, now: u128) -> (out: (Self, Update))
        ensures
            out.0@ == (SessionView { service: service@, start: now }),
            out.1@ == session_opened(service@),
    {
        let up = traffic::change_active(SESSION_KIND, service, Change::Up);
        (WsTracker { service, start: now }, up)
    }

    /// The session is over: what it reports.
    pub fn close(self, now: u128) -> (updates: Vec<Update>)
        ensures
            metric::update_views(updates@) == session_closed(self@, now),
    {
        let millis = clock::elapsed_millis(self.start, now);
        let down = traffic::change_active(SESSION_KIND, self.service, Change::Down);
        let duration = Update {
            metric: metric::WEBSOCKET_SESSION_DURATION,
            labels: vec![metric::label("service", self.service)],
            change: Change::Observe(millis),
        };
        assert(duration@.labels =~= seq![("service"@, self@.service)]);
        let updates = vec![down, duration];
        assert(metric::update_views(updates@) =~= session_closed(self@, now));
        updates
    }
}

/// While a session is open the gauge of open connections counts it once, and
/// when it is over the gauge is back where it was.
pub proof fn law_session_is_active_until_closed(
    service: Seq<char>,
    start: u128,
    now: u128,
    labels: metric::LabelsView,
)
    ensures
        metric::active_after(seq![session_opened(service)], labels) == (if labels
            == traffic::active_labels(SESSION_KIND@, service) {
            1int
        } else {
            0
        }),
        metric::active_after(
            seq![session_opened(service)] + session_closed(SessionView { service, start }, now),
            labels,
        ) == 0,
{
    let first = seq![session_opened(service)];
    let closing = session_closed(SessionView { service, start }, now);
    reveal_with_fuel(metric::active_after, 3);
    assert(first.drop_last() =~= Seq::empty());
    assert(closing.drop_last() =~= seq![closing[0]]);
    assert(closing.drop_last().drop_last() =~= Seq::empty());
    metric::lemma_active_after_concat(first, closing, labels);
}

/// From the opening of a session to its end: one more connection and then one
/// less, under the labels of sessions and the service, and one duration of the
/// whole milliseconds in between.
pub proof fn law_sessions_are_timed(
    service: &'static str,
    start: u128,
    out: (WsTracker, Update),
    now: u128,
    updates: Vec<Update>,
)
    requires
        call_ensures(WsTracker::new, (service, start), out),
        call_ensures(WsTracker::close, (out.0, now), updates),
    ensures
        out.1.change == Change::Up,
        metric::is_update_of(
            out.1,
            "http_requests_active"@,
            seq![("type"@, "websocket_session"@), ("service"@, service@)],
        ),
        updates@.len() == 2,
        updates@[0].change == Change::Down,
        metric::is_update_of(
            updates@[0],
            "http_requests_active"@,
            seq![("type"@, "websocket_session"@), ("service"@, service@)],
        ),
        metric::is_update_of(
            updates@[1],
            "websocket_session_duration_seconds_ms"@,
            seq![("service"@, service@)],
        ),
        updates@[1].change matches Change::Observe(millis) && {
            &&& start <= now ==> millis * 1_000_000 <= now - start < (millis + 1) * 1_000_000
            &&& now <= start ==> millis == 0
        },
{
    clock::lemma_millis_between(start, now);
    let views = metric::update_views(updates@);
    assert(views.len() == 2);
    assert(updates@[0]@ == views[0]);
    assert(updates@[1]@ == views[1]);
    metric::lemma_labels_carried(out.1, out.1@.labels);
    metric::lemma_labels_carried(updates@[0], updates@[0]@.labels);
    metric::lemma_labels_carried(updates@[1], updates@[1]@.labels);
}

} // verus!
