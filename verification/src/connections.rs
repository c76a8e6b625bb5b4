//! All open connections at once: the gauge of open connections against the
//! connections and sessions that are open.

use vstd::prelude::*;

use crate::metric;
use crate::traffic;
use crate::traffic::Polled;
use crate::websocket;

verus! {

/// Something that is open: a connection or a WebSocket session.
pub enum Held {
    Connection(traffic::GuardView),
    Session(websocket::SessionView),
}

/// What happens to the connections of a server. A connection or session is
/// known by its place in the order in which they began.
pub enum ConnectionEvent {
    /// A request is answered.
    Respond { request: traffic::RequestView, status: u16, kind: traffic::TrafficKind },
    /// A body is polled.
    Poll { at: nat, polled: Polled, now: u128 },
    /// A session opens.
    OpenSession { session: websocket::SessionView },
    /// A body is dropped, or a session is over.
    Close { at: nat, now: u128 },
}

/// The labels under which the gauge counts what is open.
pub open spec fn held_labels(held: Held) -> metric::LabelsView {
    match held {
        Held::Connection(guard) => traffic::active_labels(
            guard.kind.label_view(),
            guard.request.service,
        ),
        Held::Session(session) => traffic::active_labels(
            websocket::SESSION_KIND@,
            session.service,
        ),
    }
}

/// A connection in its place, where there is one.
pub open spec fn connection(guard: Option<traffic::GuardView>) -> Option<Held> {
    match guard {
        Some(g) => Some(Held::Connection(g)),
        None => None,
    }
}

/// The guard of the connection in a place, where there is one.
pub open spec fn guard_in(place: Option<Held>) -> Option<traffic::GuardView> {
    match place {
        Some(Held::Connection(guard)) => Some(guard),
        _ => None,
    }
}

/// What is open after an event.
pub open spec fn open_after(open: Seq<Option<Held>>, event: ConnectionEvent) -> Seq<
    Option<Held>,
> {
    match event {
        ConnectionEvent::Respond { request, status, kind } => open.push(
            connection(traffic::opened(request, kind)),
        ),
        ConnectionEvent::Poll { at, polled, now } => if at < open.len() && guard_in(
            open[at as int],
        ) is Some {
            open.update(
                at as int,
                connection(traffic::held_after(guard_in(open[at as int]), polled)),
            )
        } else {
            open
        },
        ConnectionEvent::OpenSession { session } => open.push(Some(Held::Session(session))),
        ConnectionEvent::Close { at, now } => if at < open.len() {
            open.update(at as int, None)
        } else {
            open
        },
    }
}

/// What an event reports.
pub open spec fn event_reports(open: Seq<Option<Held>>, event: ConnectionEvent) -> Seq<
    metric::UpdateView,
> {
    match event {
        ConnectionEvent::Respond { request, status, kind } => traffic::response_reports(
            request,
            status,
            kind,
        ),
        ConnectionEvent::Poll { at, polled, now } => if at < open.len() {
            traffic::poll_reports(guard_in(open[at as int]), polled, now)
        } else {
            Seq::empty()
        },
        ConnectionEvent::OpenSession { session } => seq![
            websocket::session_opened(session.service),
        ],
        ConnectionEvent::Close { at, now } => if at < open.len() {
            match open[at as int] {
                Some(Held::Session(session)) => websocket::session_closed(session, now),
                place => traffic::released(guard_in(place), now),
            }
        } else {
            Seq::empty()
        },
    }
}

/// What is open after a run of events, from nothing.
pub open spec fn open_after_all(events: Seq<ConnectionEvent>) -> Seq<Option<Held>>
    decreases events.len(),
{
    if events.len() == 0 {
        Seq::empty()
    } else {
        open_after(open_after_all(events.drop_last()), events.last())
    }
}

/// All that a run of events reports, from nothing.
pub open spec fn all_reports(events: Seq<ConnectionEvent>) -> Seq<metric::UpdateView>
    decreases events.len(),
{
    if events.len() == 0 {
        Seq::empty()
    } else {
        all_reports(events.drop_last()) + event_reports(
            open_after_all(events.drop_last()),
            events.last(),
        )
    }
}

/// One for a place that holds something under `labels`, zero for any other.
pub open spec fn counts(place: Option<Held>, labels: metric::LabelsView) -> int {
    if place is Some && held_labels(place->0) == labels {
        1
    } else {
        0
    }
}

/// How many connections and sessions are open under `labels`.
pub open spec fn number_open(open: Seq<Option<Held>>, labels: metric::LabelsView) -> int
    decreases open.len(),
{
    if open.len() == 0 {
        0
    } else {
        number_open(open.drop_last(), labels) + counts(open.last(), labels)
    }
}

proof fn lemma_number_open_update(
    open: Seq<Option<Held>>,
    at: int,
    place: Option<Held>,
    labels: metric::LabelsView,
)
    requires
        0 <= at < open.len(),
    ensures
        number_open(open.update(at, place), labels) == number_open(open, labels) - counts(
            open[at],
            labels,
        ) + counts(place, labels),
    decreases open.len(),
{
    let changed = open.update(at, place);
    if at == open.len() - 1 {
        assert(changed.drop_last() =~= open.drop_last());
    } else {
        lemma_number_open_update(open.drop_last(), at, place, labels);
        assert(changed.drop_last() =~= open.drop_last().update(at, place));
        assert(changed.last() == open.last());
    }
}

proof fn lemma_number_open_push(
    open: Seq<Option<Held>>,
    place: Option<Held>,
    labels: metric::LabelsView,
)
    ensures
        number_open(open.push(place), labels) == number_open(open, labels) + counts(place, labels),
{
    assert(open.push(place).drop_last() =~= open);
}

/// An event moves the gauge by as much as it changes the number that is open.
proof fn lemma_event_moves_gauge(
    open: Seq<Option<Held>>,
    event: ConnectionEvent,
    labels: metric::LabelsView,
)
    ensures
        number_open(open_after(open, event), labels) == number_open(open, labels)
            + metric::active_after(event_reports(open, event), labels),
{
    let reports = event_reports(open, event);
    reveal_with_fuel(metric::active_after, 3);
    if reports.len() == 1 {
        assert(reports.drop_last() =~= Seq::empty());
    } else if reports.len() == 2 {
        assert(reports.drop_last() =~= seq![reports[0]]);
        assert(reports.drop_last().drop_last() =~= Seq::empty());
    }
    match event {
        ConnectionEvent::Respond { request, status, kind } => {
            lemma_number_open_push(open, connection(traffic::opened(request, kind)), labels);
        },
        ConnectionEvent::Poll { at, polled, now } => {
            if at < open.len() && guard_in(open[at as int]) is Some {
                lemma_number_open_update(
                    open,
                    at as int,
                    connection(traffic::held_after(guard_in(open[at as int]), polled)),
                    labels,
                );
            }
        },
        ConnectionEvent::OpenSession { session } => {
            lemma_number_open_push(open, Some(Held::Session(session)), labels);
        },
        ConnectionEvent::Close { at, now } => {
            if at < open.len() {
                lemma_number_open_update(open, at as int, None, labels);
            }
        },
    }
}

/// The gauge of open connections tells, under every set of labels, how many
/// connections and sessions are open under them, in whatever order requests are
/// answered, bodies polled and dropped, and sessions opened and closed.
pub proof fn law_gauge_is_number_open(events: Seq<ConnectionEvent>, labels: metric::LabelsView)
    ensures
        metric::active_after(all_reports(events), labels) == number_open(
            open_after_all(events),
            labels,
        ),
    decreases events.len(),
{
    if events.len() > 0 {
        let before = events.drop_last();
        law_gauge_is_number_open(before, labels);
        lemma_event_moves_gauge(open_after_all(before), events.last(), labels);
        metric::lemma_active_after_concat(
            all_reports(before),
            event_reports(open_after_all(before), events.last()),
            labels,
        );
    }
}

} // verus!
