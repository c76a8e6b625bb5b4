//! Which events reach the log.

use tracing_subscriber::filter::Targets;
use vstd::prelude::*;

use crate::spans::METRIC_TARGET;
use crate::text;

verus! {

/// How severe an event is, the most severe first.
#[derive(Clone, Copy, Debug, PartialEq, Eq, Structural)]
pub enum Severity {
    Error,
    Warn,
    Info,
    Debug,
    Trace,
}

impl Severity {
    /// How verbose a log is that goes down to this severity; the log that holds
    /// nothing has rank zero.
    pub open spec fn rank(self) -> nat {
        match self {
            Severity::Error => 1,
            Severity::Warn => 2,
            Severity::Info => 3,
            Severity::Debug => 4,
            Severity::Trace => 5,
        }
    }
}

/// The rank of the least severe events that are let through, zero for none.
pub open spec fn limit_rank(limit: Option<Severity>) -> nat {
    match limit {
        Some(severity) => severity.rank(),
        None => 0,
    }
}

/// A filter of events by target and severity.
#[verifier::external_type_specification]
#[verifier::external_body]
pub struct ExTargets(Targets);

/// What a filter holds: the rank that is let through for the targets that begin
/// with a prefix, and, under `None`, for all other targets.
pub uninterp spec fn directives(filter: Targets) -> Map<Option<Seq<char>>, nat>;

/// Whether the directive under `key` speaks of `target`.
pub open spec fn speaks_of(key: Option<Seq<char>>, target: Seq<char>) -> bool {
    match key {
        Some(prefix) => prefix.is_prefix_of(target),
        None => true,
    }
}

/// How specific the directive under `key` is.
pub open spec fn specificity(key: Option<Seq<char>>) -> int {
    match key {
        Some(prefix) => prefix.len() as int,
        None => -1,
    }
}

/// Whether the directive under `key` is the most specific one that speaks of `target`.
pub open spec fn decides(
    held: Map<Option<Seq<char>>, nat>,
    target: Seq<char>,
    key: Option<Seq<char>>,
) -> bool {
    &&& held.contains_key(key)
    &&& speaks_of(key, target)
    &&& forall|other: Option<Seq<char>>| #[trigger]
        held.contains_key(other) && speaks_of(other, target) ==> specificity(other) <= specificity(
            key,
        )
}

/// Whether a filter that holds `held` lets through an event with this target and rank.
pub open spec fn lets_through(
    held: Map<Option<Seq<char>>, nat>,
    target: Seq<char>,
    rank: nat,
) -> bool {
    exists|key: Option<Seq<char>>| #[trigger] decides(held, target, key) && rank <= held[key]
}

/// What a filter without directives holds.
pub open spec fn no_directives() -> Map<Option<Seq<char>>, nat> {
    Map::empty()
}

/// `Targets::new`: a filter that holds nothing.
#[verifier::external_body]
fn empty_filter() -> (filter: Targets)
    ensures
        directives(filter) == no_directives(),
{
    Targets::new()
}

/// `Targets::with_target`: the filter with a directive for the targets that
/// begin with `prefix`, in place of the one that it had for the same prefix.
#[verifier::external_body]
fn with_target(filter: Targets, prefix: &str, limit: Option<Severity>) -> (changed: Targets)
    ensures
        directives(changed) == directives(filter).insert(Some(prefix@), limit_rank(limit)),
{
    let level = limit.map(|severity| match severity {
        Severity::Error => tracing::Level::ERROR,
        Severity::Warn => tracing::Level::WARN,
        Severity::Info => tracing::Level::INFO,
        Severity::Debug => tracing::Level::DEBUG,
        Severity::Trace => tracing::Level::TRACE,
    });
    filter.with_target(prefix, level)
}

/// `Targets::with_default`: the filter with a directive for the targets that no
/// prefix speaks of, in place of the one that it had.
#[verifier::external_body]
fn with_default(filter: Targets, limit: Option<Severity>) -> (changed: Targets)
    ensures
        directives(changed) == directives(filter).insert(None, limit_rank(limit)),
{
    let level = limit.map(|severity| match severity {
        Severity::Error => tracing::Level::ERROR,
        Severity::Warn => tracing::Level::WARN,
        Severity::Info => tracing::Level::INFO,
        Severity::Debug => tracing::Level::DEBUG,
        Severity::Trace => tracing::Level::TRACE,
    });
    filter.with_default(level)
}

/// `Targets::would_enable`: whether the filter lets through events with this
/// target and severity. The most specific directive that speaks of the target
/// decides; where none does, nothing is let through.
#[verifier::external_body]
fn would_enable(filter: &Targets, target: &str, severity: Severity) -> (enabled: bool)
    ensures
        enabled == lets_through(directives(*filter), target@, severity.rank()),
{
    let level = match severity {
        Severity::Error => tracing::Level::ERROR,
        Severity::Warn => tracing::Level::WARN,
        Severity::Info => tracing::Level::INFO,
        Severity::Debug => tracing::Level::DEBUG,
        Severity::Trace => tracing::Level::TRACE,
    };
    filter.would_enable(target, &level)
}

/// What the filter of the log holds: no error signals, and errors of everything else.
pub open spec fn log_directives() -> Map<Option<Seq<char>>, nat> {
    no_directives().insert(Some(METRIC_TARGET@), 0).insert(
        None,
        Severity::Error.rank(),
    )
}

/// The filter of the log.
pub fn log_filter() -> (filter: Targets)
    ensures
        directives(filter) == log_directives(),
{
    let off = with_target(empty_filter(), METRIC_TARGET, None);
    with_default(off, Some(Severity::Error))
}

/// Whether an event reaches the log: it is an error, and no error signal.
pub open spec fn is_logged(target: Seq<char>, severity: Severity) -> bool {
    severity is Error && !METRIC_TARGET@.is_prefix_of(target)
}

/// The directives of the log let through what is logged and nothing else.
pub proof fn lemma_log_directives(target: Seq<char>, severity: Severity)
    ensures
        lets_through(log_directives(), target, severity.rank()) == is_logged(target, severity),
{
    let held = log_directives();
    let key = if METRIC_TARGET@.is_prefix_of(target) {
        Some(METRIC_TARGET@)
    } else {
        None
    };
    assert(decides(held, target, key));
    assert forall|other: Option<Seq<char>>| #[trigger] decides(held, target, other) implies other
        == key by {
        assert(held.contains_key(key) && speaks_of(key, target));
    }
}

/// Whether an event with this target and severity reaches the log.
pub fn reaches_log(target: &str, severity: Severity) -> (logged: bool)
    ensures
        logged == is_logged(target@, severity),
{
    let filter = log_filter();
    proof {
        lemma_log_directives(target@, severity);
    }
    would_enable(&filter, target, severity)
}

/// What reaches the log are the errors whose target does not begin with that of
/// the error signals.
pub proof fn law_log_holds_errors_but_no_signals(target: &str, severity: Severity, logged: bool)
    requires
        call_ensures(reaches_log, (target, severity), logged),
    ensures
        logged <==> severity == Severity::Error && !(exists|rest: Seq<char>|
            target@ == #[trigger] ("metrics::signal"@ + rest)),
{
    text::lemma_prefix_is_beginning(target@, "metrics::signal"@);
}

/// The filter that the log is given lets through the same: errors whose target
/// does not begin with that of the error signals.
pub proof fn law_filter_holds_errors_but_no_signals(
    filter: Targets,
    target: Seq<char>,
    severity: Severity,
)
    requires
        call_ensures(log_filter, (), filter),
    ensures
        lets_through(directives(filter), target, severity.rank()) <==> severity == Severity::Error
            && !(exists|rest: Seq<char>| target == #[trigger] ("metrics::signal"@ + rest)),
{
    lemma_log_directives(target, severity);
    text::lemma_prefix_is_beginning(target, "metrics::signal"@);
}

/// The severities are ranked from the most severe on, without a gap, and the
/// log that holds nothing stands below them all.
pub proof fn law_severities_are_ranked(severity: Severity)
    ensures
        limit_rank(None) == 0,
        limit_rank(Some(severity)) == severity.rank(),
        Severity::Error.rank() == limit_rank(None) + 1,
        Severity::Warn.rank() == Severity::Error.rank() + 1,
        Severity::Info.rank() == Severity::Warn.rank() + 1,
        Severity::Debug.rank() == Severity::Info.rank() + 1,
        Severity::Trace.rank() == Severity::Debug.rank() + 1,
{
}

/// The directive with the longest prefix that begins the target decides what is
/// let through, whatever the shorter ones say.
pub proof fn law_longest_prefix_decides(
    held: Map<Option<Seq<char>>, nat>,
    target: Seq<char>,
    prefix: Seq<char>,
    rank: nat,
)
    requires
        held.contains_key(Some(prefix)),
        exists|rest: Seq<char>| target == #[trigger] (prefix + rest),
        forall|other: Seq<char>| #[trigger]
            held.contains_key(Some(other)) && (exists|rest: Seq<char>|
                target == #[trigger] (other + rest)) ==> other.len() <= prefix.len(),
    ensures
        lets_through(held, target, rank) <==> rank <= held[Some(prefix)],
{
    text::lemma_prefix_is_beginning(target, prefix);
    assert forall|other: Option<Seq<char>>| #[trigger]
        held.contains_key(other) && speaks_of(other, target) implies specificity(other)
        <= specificity(Some(prefix)) by {
        if let Some(o) = other {
            text::lemma_prefix_is_beginning(target, o);
        }
    }
    assert(decides(held, target, Some(prefix)));
    assert forall|key: Option<Seq<char>>| #[trigger] decides(held, target, key) implies key
        == Some(prefix) by {
        assert(held.contains_key(Some(prefix)) && speaks_of(Some(prefix), target));
        assert(specificity(Some(prefix)) <= specificity(key));
        assert(key is Some);
        assert(key->0 =~= prefix);
    }
}

/// Where no prefix begins the target, the default decides, and nothing is let
/// through where there is none.
pub proof fn law_default_decides_the_rest(
    held: Map<Option<Seq<char>>, nat>,
    target: Seq<char>,
    rank: nat,
)
    requires
        forall|other: Seq<char>| #[trigger]
            held.contains_key(Some(other)) ==> !(exists|rest: Seq<char>|
                target == #[trigger] (other + rest)),
    ensures
        lets_through(held, target, rank) <==> held.contains_key(None) && rank <= held[None],
{
    assert forall|key: Option<Seq<char>>| #[trigger]
        held.contains_key(key) && speaks_of(key, target) implies key is None by {
        if let Some(o) = key {
            text::lemma_prefix_is_beginning(target, o);
        }
    }
    if held.contains_key(None) {
        assert(decides(held, target, None));
    }
}

} // verus!
