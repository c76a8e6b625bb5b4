//! Errors that are counted but not logged.

use vstd::prelude::*;

use crate::logging;
use crate::logging::Severity;
use crate::spans;
use crate::spans::METRIC_TARGET;

verus! {

/// An event that reports an error.
#[derive(Debug)]
pub struct Signal {
    pub target: &'static str,
    pub severity: Severity,
    pub message: &'static str,
}

/// Whether `signal` is the one that an error raises.
pub open spec fn is_error_signal(signal: Signal) -> bool {
    &&& signal.target@ == METRIC_TARGET@
    &&& signal.severity is Info
    &&& signal.message@ == "err"@
}

/// Results whose errors are counted.
pub trait Trackable<T, E>: Sized {
    /// The result, and the signal to raise for it.
    fn track(self) -> (out: (Result<T, E>, Option<Signal>));
}

impl<T, E> Trackable<T, E> for Result<T, E> {
    /// The result as it is, and a signal if it is an error.
    fn track(self) -> (out: (Result<T, E>, Option<Signal>))
        ensures
            out.0 == self,
            out.1 is Some <==> self is Err,
            out.1 is Some ==> is_error_signal(out.1->0),
    {
        if self.is_err() {
            let signal = Signal {
                target: METRIC_TARGET,
                severity: Severity::Info,
                message: "err",
            };
            (self, Some(signal))
        } else {
            (self, None)
        }
    }
}

/// Every tracked error is counted once, inside a span or outside all of them,
/// and it never reaches the log.
pub proof fn law_tracked_errors_are_counted_not_logged(
    signal: Signal,
    scope: Seq<spans::ScopeSpanView>,
)
    requires
        is_error_signal(signal),
    ensures
        spans::event_report(signal.target@, scope) is Some,
        spans::event_report(signal.target@, scope)->0.metric
            == crate::metric::FUNCTION_ERRORS_TOTAL@,
        spans::event_report(signal.target@, scope)->0.change == crate::metric::Change::Count,
        !logging::is_logged(signal.target@, signal.severity),
{
}

/// Only error signals are counted as errors.
pub proof fn law_other_events_are_not_counted(
    target: Seq<char>,
    scope: Seq<spans::ScopeSpanView>,
)
    requires
        target != METRIC_TARGET@,
    ensures
        spans::event_report(target, scope) is None,
{
}

/// Tracking hands every result back as it came, and raises a signal for an error
/// and for nothing else: one on the channel that is counted, below the level
/// that is logged.
pub proof fn law_tracking_signals_errors<T, E>(
    result: Result<T, E>,
    out: (Result<T, E>, Option<Signal>),
)
    requires
        call_ensures(<Result<T, E> as Trackable<T, E>>::track, (result,), out),
    ensures
        out.0 == result,
        result is Ok ==> out.1 is None,
        result is Err ==> {
            &&& out.1 is Some
            &&& out.1->0.target@ == "metrics::signal"@
            &&& out.1->0.severity == Severity::Info
            &&& out.1->0.message@ == "err"@
        },
{
}

/// A tracked error is counted as one error of its scope, and is not logged.
pub proof fn law_tracked_errors_are_reported<T, E>(
    error: E,
    out: (Result<T, E>, Option<Signal>),
    scope: &Vec<spans::ScopeSpan>,
    report: Option<crate::metric::Update>,
    logged: bool,
)
    requires
        call_ensures(<Result<T, E> as Trackable<T, E>>::track, (Err::<T, E>(error),), out),
        out.1 is Some ==> call_ensures(spans::on_event, (out.1->0.target, scope), report),
        out.1 is Some ==> call_ensures(
            logging::reaches_log,
            (out.1->0.target, out.1->0.severity),
            logged,
        ),
    ensures
        out.1 is Some,
        report is Some,
        report->0.metric@ == "function_errors_total"@,
        report->0.change == crate::metric::Change::Count,
        !logged,
{
}

} // verus!
