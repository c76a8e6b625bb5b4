//! Spans and events: which service a span belongs to, what a span reports when
//! it closes, and what an error event reports.

use vstd::prelude::*;

use crate::clock;
use crate::metric;
use crate::metric::{Change, Update};
use crate::text;

verus! {

/// The target of the events that report errors.
pub const METRIC_TARGET: &'static str = "metrics::signal";

/// The span that carries the service of a request.
pub const SVC_CTX_SPAN: &'static str = "svc_ctx";

/// The span that a framework puts around a request.
pub const REQUEST_SPAN: &'static str = "request";

/// The field of a span that names its service.
pub const SERVICE_FIELD: &'static str = "service";

/// The service label where no span names one.
pub const UNKNOWN_SERVICE: &'static str = "unknown";

/// The function label of an error outside all spans.
pub const UNKNOWN_FUNCTION: &'static str = "unknown";

/// Picks the service out of the fields of a span.
#[derive(Debug)]
pub struct ServiceExtractor {
    service: Option<String>,
}

impl View for ServiceExtractor {
    type V = Option<Seq<char>>;

    closed spec fn view(&self) -> Option<Seq<char>> {
        text::owned_view(self.service)
    }
}

/// The service after one more field.
pub open spec fn after_field(
    service: Option<Seq<char>>,
    field: Seq<char>,
    value: Seq<char>,
) -> Option<Seq<char>> {
    if field == SERVICE_FIELD@ {
        Some(value)
    } else {
        service
    }
}

impl Default for ServiceExtractor {
    fn default() -> (extractor: Self)
        ensures
            extractor@ is None,
    {
        ServiceExtractor { service: None }
    }
}

impl ServiceExtractor {
    /// Whether the extractor takes in fields of this name.
    pub fn wants(field: &str) -> (wanted: bool)
        ensures
            wanted == (field@ == SERVICE_FIELD@),
    {
        text::same(field, SERVICE_FIELD)
    }

    /// Takes in a field whose value is not text, in its debug rendering.
    pub fn record_debug(&mut self, field: &str, rendered: &str)
        ensures
            final(self)@ == after_field(old(self)@, field@, rendered@),
    {
        if Self::wants(field) {
            self.service = Some(String::from(rendered));
        }
    }

    /// Takes in a field whose value is text.
    pub fn record_str(&mut self, field: &str, value: &str)
        ensures
            final(self)@ == after_field(old(self)@, field@, value@),
    {
        if Self::wants(field) {
            self.service = Some(String::from(value));
        }
    }
}

/// What is remembered of a span: when it began and the service it belongs to.
#[derive(Debug)]
pub struct SpanRecord {
    start: u128,
    service: Option<String>,
}

/// A span record over characters.
pub struct SpanView {
    pub start: u128,
    pub service: Option<Seq<char>>,
}

impl View for SpanRecord {
    type V = SpanView;

    closed spec fn view(&self) -> SpanView {
        SpanView { start: self.start, service: text::owned_view(self.service) }
    }
}

/// The service of a span: the one that it names, else that of its parent.
pub open spec fn inherited(
    declared: Option<Seq<char>>,
    parent: Option<Seq<char>>,
) -> Option<Seq<char>> {
    if declared is Some {
        declared
    } else {
        parent
    }
}

/// The service of an optional span.
pub open spec fn service_of_span(span: Option<&SpanRecord>) -> Option<Seq<char>> {
    match span {
        Some(record) => record@.service,
        None => None,
    }
}

impl SpanRecord {
    /// The service that the span belongs to, where there is one.
    pub fn service(&self) -> (service: Option<String>)
        ensures
            text::owned_view(service) == self@.service,
    {
        match &self.service {
            Some(s) => Some(s.clone()),
            None => None,
        }
    }
}

/// A span begins at `now`, with the fields in `fields`, inside `parent`.
pub fn on_new_span(fields: ServiceExtractor, parent: Option<&SpanRecord>, now: u128) -> (record:
    SpanRecord)
    ensures
        record@ == (SpanView { start: now, service: inherited(fields@, service_of_span(parent)) }),
{
    let service = match fields.service {
        Some(s) => Some(s),
        None => match parent {
            Some(p) => p.service(),
            None => None,
        },
    };
    SpanRecord { start: now, service }
}

/// Whether a span of this name stands around functions and is none itself.
pub open spec fn is_context_span(name: Seq<char>) -> bool {
    name == REQUEST_SPAN@ || name == SVC_CTX_SPAN@
}

/// Whether a span of this name stands around functions and is none itself.
fn context_span(name: &str) -> (found: bool)
    ensures
        found == is_context_span(name@),
{
    text::same(name, REQUEST_SPAN) || text::same(name, SVC_CTX_SPAN)
}

/// The label for an optional service.
pub open spec fn service_or_unknown(service: Option<Seq<char>>) -> Seq<char> {
    match service {
        Some(s) => s,
        None => UNKNOWN_SERVICE@,
    }
}

/// What a span reports when it closes at `now`: its duration, unless nothing is
/// remembered of it or it is no function.
pub open spec fn close_report(name: Seq<char>, span: Option<SpanView>, now: u128) -> Option<
    metric::UpdateView,
> {
    if span is None || is_context_span(name) {
        None
    } else {
        Some(
            metric::UpdateView {
                metric: metric::FUNCTION_DURATION@,
                labels: seq![
                    ("function"@, name),
                    ("service"@, service_or_unknown(span->0.service)),
                ],
                change: Change::Observe(clock::millis_between(span->0.start, now)),
            },
        )
    }
}

/// An optional span record over characters.
pub open spec fn record_view(span: Option<&SpanRecord>) -> Option<SpanView> {
    match span {
        Some(record) => Some(record@),
        None => None,
    }
}

/// The span `name` closes at `now`: what it reports.
pub fn on_close(name: &str, span: Option<&SpanRecord>, now: u128) -> (report: Option<Update>)
    ensures
        metric::report_view(report) == close_report(name@, record_view(span), now),
{
    let record: &SpanRecord = match span {
        Some(r) => r,
        None => return None,
    };
    if context_span(name) {
        return None;
    }
    let service = match record.service() {
        Some(s) => s,
        None => String::from(UNKNOWN_SERVICE),
    };
    let update = Update {
        metric: metric::FUNCTION_DURATION,
        labels: vec![metric::label("function", name), metric::label("service", service.as_str())],
        change: Change::Observe(clock::elapsed_millis(record.start, now)),
    };
    assert(update@.labels =~= close_report(name@, record_view(span), now)->0.labels);
    Some(update)
}

/// A span in the scope of an event.
#[derive(Debug)]
pub struct ScopeSpan {
    pub name: &'static str,
    pub service: Option<String>,
}

/// A span in a scope over characters.
pub struct ScopeSpanView {
    pub name: Seq<char>,
    pub service: Option<Seq<char>>,
}

impl View for ScopeSpan {
    type V = ScopeSpanView;

    open spec fn view(&self) -> ScopeSpanView {
        ScopeSpanView { name: self.name@, service: text::owned_view(self.service) }
    }
}

/// A scope over characters.
pub open spec fn scope_view(scope: Seq<ScopeSpan>) -> Seq<ScopeSpanView> {
    scope.map_values(|s: ScopeSpan| s@)
}

/// The service of the innermost span of a scope that has one; a scope begins
/// with its outermost span.
pub open spec fn innermost_service(scope: Seq<ScopeSpanView>) -> Option<Seq<char>>
    decreases scope.len(),
{
    if scope.len() == 0 {
        None
    } else if scope.last().service is Some {
        scope.last().service
    } else {
        innermost_service(scope.drop_last())
    }
}

/// The name of the innermost span of a scope that is a function.
pub open spec fn innermost_function(scope: Seq<ScopeSpanView>) -> Option<Seq<char>>
    decreases scope.len(),
{
    if scope.len() == 0 {
        None
    } else if !is_context_span(scope.last().name) {
        Some(scope.last().name)
    } else {
        innermost_function(scope.drop_last())
    }
}

/// The function that an event in this scope is put down to: the innermost
/// function, or the current span where there is none, or a fixed label outside
/// all spans.
pub open spec fn function_label(scope: Seq<ScopeSpanView>) -> Seq<char> {
    match innermost_function(scope) {
        Some(name) => name,
        None => if scope.len() > 0 {
            scope.last().name
        } else {
            UNKNOWN_FUNCTION@
        },
    }
}

/// What an event reports: one more error, if the event is an error signal,
/// wherever it stands.
pub open spec fn event_report(target: Seq<char>, scope: Seq<ScopeSpanView>) -> Option<
    metric::UpdateView,
> {
    if target != METRIC_TARGET@ {
        None
    } else {
        Some(
            metric::UpdateView {
                metric: metric::FUNCTION_ERRORS_TOTAL@,
                labels: seq![
                    ("service"@, service_or_unknown(innermost_service(scope))),
                    ("function"@, function_label(scope)),
                ],
                change: Change::Count,
            },
        )
    }
}

/// Whether events with this target report errors.
pub fn is_signal(target: &str) -> (signal: bool)
    ensures
        signal == (target@ == METRIC_TARGET@),
{
    text::same(target, METRIC_TARGET)
}

/// An event with this target in `scope`, which begins with the outermost span,
/// ends with the current one and is empty outside all spans: what it reports.
pub fn on_event(target: &str, scope: &Vec<ScopeSpan>) -> (report: Option<Update>)
    ensures
        metric::report_view(report) == event_report(target@, scope_view(scope@)),
{
    if !is_signal(target) {
        return None;
    }
    let mut service: Option<String> = None;
    let mut function: Option<&'static str> = None;
    let mut left: usize = scope.len();
    let ghost all = scope_view(scope@);
    assert(all.take(left as int) =~= all);
    while left > 0 && !(service.is_some() && function.is_some())
        invariant
            left <= scope@.len(),
            all == scope_view(scope@),
            service is Some ==> innermost_service(all) == Some(service->0@),
            service is None ==> innermost_service(all) == innermost_service(all.take(left as int)),
            function is Some ==> innermost_function(all) == Some(function->0@),
            function is None ==> innermost_function(all) == innermost_function(
                all.take(left as int),
            ),
        decreases left,
    {
        left = left - 1;
        let span: &ScopeSpan = &scope[left];
        assert(all.take(left + 1).last() == span@);
        assert(all.take(left + 1).drop_last() =~= all.take(left as int));
        if service.is_none() {
            match &span.service {
                Some(s) => {
                    service = Some(s.clone());
                },
                None => {},
            }
        }
        if function.is_none() && !context_span(span.name) {
            function = Some(span.name);
        }
    }
    assert(all.take(0).len() == 0);
    let service_label = match service {
        Some(s) => s,
        None => String::from(UNKNOWN_SERVICE),
    };
    let function_name: &'static str = match function {
        Some(f) => f,
        None => if scope.len() > 0 {
            scope[scope.len() - 1].name
        } else {
            UNKNOWN_FUNCTION
        },
    };
    let update = Update {
        metric: metric::FUNCTION_ERRORS_TOTAL,
        labels: vec![
            metric::label("service", service_label.as_str()),
            metric::label("function", function_name),
        ],
        change: Change::Count,
    };
    assert(update@.labels =~= event_report(target@, all)->0.labels);
    Some(update)
}

/// The services of nested spans, outermost first, where `declared` holds the
/// service that each of them names.
pub open spec fn nested_services(declared: Seq<Option<Seq<char>>>) -> Seq<Option<Seq<char>>>
    decreases declared.len(),
{
    if declared.len() == 0 {
        Seq::empty()
    } else {
        let outer = nested_services(declared.drop_last());
        outer.push(
            inherited(
                declared.last(),
                if outer.len() == 0 {
                    None
                } else {
                    outer.last()
                },
            ),
        )
    }
}

/// The last service that is named in `declared`.
pub open spec fn last_declared(declared: Seq<Option<Seq<char>>>) -> Option<Seq<char>>
    decreases declared.len(),
{
    if declared.len() == 0 {
        None
    } else if declared.last() is Some {
        declared.last()
    } else {
        last_declared(declared.drop_last())
    }
}

/// Services are inherited: a span belongs to the service that it names, or else
/// to the one named by the nearest span around it, however far out that is.
pub proof fn law_services_are_inherited(declared: Seq<Option<Seq<char>>>)
    ensures
        nested_services(declared).len() == declared.len(),
        forall|i: int|
            0 <= i < declared.len() ==> #[trigger] nested_services(declared)[i] == last_declared(
                declared.take(i + 1),
            ),
    decreases declared.len(),
{
    if declared.len() > 0 {
        let outer = declared.drop_last();
        law_services_are_inherited(outer);
        assert(declared.take(declared.len() as int) =~= declared);
        assert(outer.take(outer.len() as int) =~= outer);
        assert forall|i: int| 0 <= i < declared.len() implies #[trigger] nested_services(
            declared,
        )[i] == last_declared(declared.take(i + 1)) by {
            if i < outer.len() {
                assert(nested_services(declared)[i] == nested_services(outer)[i]);
                assert(declared.take(i + 1) =~= outer.take(i + 1));
            } else if outer.len() > 0 {
                assert(nested_services(outer)[outer.len() - 1] == last_declared(
                    outer.take(outer.len() as int),
                ));
            } else {
                assert(last_declared(outer) is None);
            }
        }
    }
}

/// The service that a span names holds for all spans inside it up to the next
/// one that names a service: so the service of a request holds for all that
/// runs within it.
pub proof fn law_named_service_holds_inside(declared: Seq<Option<Seq<char>>>, k: int, i: int)
    requires
        0 <= k <= i < declared.len(),
        declared[k] is Some,
        forall|j: int| k < j <= i ==> (#[trigger] declared[j]) is None,
    ensures
        nested_services(declared)[i] == declared[k],
    decreases i - k,
{
    law_services_are_inherited(declared);
    assert(nested_services(declared)[i] == last_declared(declared.take(i + 1)));
    assert(declared.take(i + 1).last() == declared[i]);
    if k < i {
        law_named_service_holds_inside(declared, k, i - 1);
        assert(declared[i] is None);
        assert(declared.take(i + 1).drop_last() =~= declared.take(i));
        assert(nested_services(declared)[i - 1] == last_declared(declared.take(i)));
    }
}

/// An error is put down to the service of the current span, the same one that
/// the span's own duration is reported under.
pub proof fn law_errors_follow_the_current_span(
    scope: Seq<ScopeSpanView>,
    declared: Seq<Option<Seq<char>>>,
)
    requires
        scope.len() == declared.len(),
        scope.len() > 0,
        forall|i: int|
            0 <= i < scope.len() ==> (#[trigger] scope[i]).service == nested_services(declared)[i],
    ensures
        innermost_service(scope) == scope.last().service,
        innermost_service(scope) == last_declared(declared),
    decreases scope.len(),
{
    law_services_are_inherited(declared);
    assert(declared.take(declared.len() as int) =~= declared);
    assert(scope[scope.len() - 1].service == nested_services(declared)[scope.len() - 1]);
    assert(scope.last().service == last_declared(declared));
    if scope.last().service is None {
        let outer = declared.drop_last();
        let outer_scope = scope.drop_last();
        law_services_are_inherited(outer);
        if outer.len() > 0 {
            assert forall|i: int| 0 <= i < outer_scope.len() implies (
            #[trigger] outer_scope[i]).service == nested_services(outer)[i] by {
                assert(outer_scope[i] == scope[i]);
                assert(nested_services(declared)[i] == nested_services(outer)[i]);
            }
            law_errors_follow_the_current_span(outer_scope, outer);
        } else {
            assert(outer_scope.len() == 0);
        }
    }
}

/// An error is put down to a function wherever there is one in its scope: to
/// the name of a context span only where all its spans are context spans.
pub proof fn law_errors_name_functions(scope: Seq<ScopeSpanView>)
    ensures
        (exists|i: int| 0 <= i < scope.len() && !is_context_span((#[trigger] scope[i]).name))
            ==> !is_context_span(function_label(scope)),
        scope.len() > 0 ==> exists|i: int|
            0 <= i < scope.len() && (#[trigger] scope[i]).name == function_label(scope),
    decreases scope.len(),
{
    if scope.len() > 0 {
        let outer = scope.drop_last();
        law_errors_name_functions(outer);
        assert(scope[scope.len() - 1] == scope.last());
        if is_context_span(scope.last().name) {
            lemma_function_found(scope);
            lemma_function_found(outer);
            if innermost_function(scope) is Some {
                let i = choose|i: int|
                    0 <= i < outer.len() && (#[trigger] outer[i]).name == function_label(outer);
                lemma_function_found(outer);
                assert(innermost_function(outer) is Some);
                assert(function_label(outer) == function_label(scope));
                assert(scope[i] == outer[i]);
            }
            if exists|i: int| 0 <= i < scope.len() && !is_context_span((#[trigger] scope[i]).name) {
                let i = choose|i: int|
                    0 <= i < scope.len() && !is_context_span((#[trigger] scope[i]).name);
                assert(outer[i] == scope[i]);
            }
        }
    }
}

proof fn lemma_function_found(scope: Seq<ScopeSpanView>)
    ensures
        innermost_function(scope) is Some <==> exists|i: int|
            0 <= i < scope.len() && !is_context_span((#[trigger] scope[i]).name),
        innermost_function(scope) is Some ==> !is_context_span(innermost_function(scope)->0),
    decreases scope.len(),
{
    if scope.len() > 0 {
        let outer = scope.drop_last();
        lemma_function_found(outer);
        assert(scope[scope.len() - 1] == scope.last());
        if is_context_span(scope.last().name) {
            if innermost_function(outer) is Some {
                let i = choose|i: int|
                    0 <= i < outer.len() && !is_context_span((#[trigger] outer[i]).name);
                assert(scope[i] == outer[i]);
            }
            if exists|i: int| 0 <= i < scope.len() && !is_context_span((#[trigger] scope[i]).name) {
                let i = choose|i: int|
                    0 <= i < scope.len() && !is_context_span((#[trigger] scope[i]).name);
                assert(outer[i] == scope[i]);
            }
        }
    }
}

/// The service that a span names after all its fields were taken in, in this order.
pub open spec fn after_fields(fields: Seq<(Seq<char>, Seq<char>)>) -> Option<Seq<char>>
    decreases fields.len(),
{
    if fields.len() == 0 {
        None
    } else {
        after_field(after_fields(fields.drop_last()), fields.last().0, fields.last().1)
    }
}

/// A span names the value of the last of its service fields, and no service
/// where it has no such field.
pub proof fn law_last_service_field_wins(fields: Seq<(Seq<char>, Seq<char>)>, i: int)
    requires
        -1 <= i < fields.len(),
        i >= 0 ==> fields[i].0 == SERVICE_FIELD@,
        forall|j: int| i < j < fields.len() ==> (#[trigger] fields[j]).0 != SERVICE_FIELD@,
    ensures
        after_fields(fields) == (if i >= 0 {
            Some(fields[i].1)
        } else {
            None
        }),
    decreases fields.len(),
{
    if fields.len() > 0 && i < fields.len() - 1 {
        let before = fields.drop_last();
        assert(fields[fields.len() - 1] == fields.last());
        assert forall|j: int| i < j < before.len() implies (#[trigger] before[j]).0
            != SERVICE_FIELD@ by {
            assert(before[j] == fields[j]);
        }
        law_last_service_field_wins(before, i);
    }
}

/// Only the field named for the service is looked at.
pub proof fn law_one_field_is_wanted(field: &str, wanted: bool)
    requires
        call_ensures(ServiceExtractor::wants, (field,), wanted),
    ensures
        wanted <==> field@ == "service"@,
{
}

/// Before its first field an extractor has taken in no service.
pub proof fn law_extractors_begin_empty(extractor: ServiceExtractor)
    requires
        call_ensures(<ServiceExtractor as Default>::default, (), extractor),
    ensures
        extractor@ is None,
{
}

/// A service field replaces what was taken in before it, whatever that was and
/// whatever the field says; any other field changes nothing. That holds of text
/// and of what is rendered as text.
pub proof fn law_service_fields_replace(
    extractor: &mut ServiceExtractor,
    field: &str,
    value: &str,
)
    requires
        call_ensures(ServiceExtractor::record_str, (extractor, field, value), ()) || call_ensures(
            ServiceExtractor::record_debug,
            (extractor, field, value),
            (),
        ),
    ensures
        field@ == "service"@ ==> final(extractor)@ == Some(value@),
        field@ != "service"@ ==> final(extractor)@ == old(extractor)@,
{
}

/// A new span belongs to the service that its fields name, else to that of its
/// parent, else to none.
pub proof fn law_new_spans_name_or_inherit(
    fields: ServiceExtractor,
    parent: Option<&SpanRecord>,
    now: u128,
    record: SpanRecord,
    service: Option<String>,
    inherits: Option<String>,
)
    requires
        call_ensures(on_new_span, (fields, parent, now), record),
        call_ensures(SpanRecord::service, (&record,), service),
        parent is Some ==> call_ensures(SpanRecord::service, (parent->0,), inherits),
    ensures
        fields@ is Some ==> service is Some && service->0@ == fields@->0,
        fields@ is None && parent is Some && inherits is Some ==> service is Some && service->0@
            == inherits->0@,
        fields@ is None && parent is Some && inherits is None ==> service is None,
        fields@ is None && parent is None ==> service is None,
{
}

/// A span that is a function reports one duration when it closes: its own name,
/// its own service or the label for none, and the whole milliseconds from its
/// beginning to its end. A span that stands around functions reports nothing,
/// and neither does a span that nothing is remembered of.
pub proof fn law_functions_are_timed(
    fields: ServiceExtractor,
    parent: Option<&SpanRecord>,
    start: u128,
    record: SpanRecord,
    service: Option<String>,
    name: &str,
    now: u128,
    report: Option<Update>,
)
    requires
        call_ensures(on_new_span, (fields, parent, start), record),
        call_ensures(SpanRecord::service, (&record,), service),
        call_ensures(on_close, (name, Some(&record), now), report),
    ensures
        name@ == "request"@ || name@ == "svc_ctx"@ ==> report is None,
        name@ != "request"@ && name@ != "svc_ctx"@ ==> {
            &&& report is Some
            &&& metric::is_update_of(
                report->0,
                "function_duration_seconds"@,
                seq![
                    ("function"@, name@),
                    (
                        "service"@,
                        if service is Some {
                            service->0@
                        } else {
                            "unknown"@
                        },
                    ),
                ],
            )
            &&& report->0.change matches Change::Observe(millis) && {
                &&& start <= now ==> millis * 1_000_000 <= now - start < (millis + 1) * 1_000_000
                &&& now <= start ==> millis == 0
            }
        },
{
    clock::lemma_millis_between(start, now);
    if name@ != "request"@ && name@ != "svc_ctx"@ {
        metric::lemma_labels_carried(report->0, report->0@.labels);
    }
}

/// Nothing is reported of a span that nothing is remembered of.
pub proof fn law_forgotten_spans_report_nothing(name: &str, now: u128, report: Option<Update>)
    requires
        call_ensures(on_close, (name, None::<&SpanRecord>, now), report),
    ensures
        report is None,
{
}

/// The duration of a span, as its report has it, is the whole milliseconds from
/// its beginning to its end.
pub proof fn law_span_durations(name: Seq<char>, span: SpanView, now: u128)
    requires
        name != "request"@,
        name != "svc_ctx"@,
    ensures
        close_report(name, Some(span), now) is Some,
        close_report(name, Some(span), now)->0.change matches Change::Observe(millis) && {
            &&& span.start <= now ==> millis * 1_000_000 <= now - span.start < (millis + 1)
                * 1_000_000
            &&& now <= span.start ==> millis == 0
        },
        close_report(name, Some(span), now)->0.labels[0] == ("function"@, name),
{
    clock::lemma_millis_between(span.start, now);
}

/// Whether a span of this name is a function: it is not one of the two that
/// stand around functions.
pub open spec fn is_function(name: Seq<char>) -> bool {
    name != "request"@ && name != "svc_ctx"@
}

proof fn lemma_innermost_function_is(scope: Seq<ScopeSpanView>, i: int)
    requires
        -1 <= i < scope.len(),
        i >= 0 ==> is_function(scope[i].name),
        forall|j: int| i < j < scope.len() ==> !is_function((#[trigger] scope[j]).name),
    ensures
        innermost_function(scope) == (if i >= 0 {
            Some(scope[i].name)
        } else {
            None
        }),
    decreases scope.len(),
{
    if scope.len() > 0 && i < scope.len() - 1 {
        let outer = scope.drop_last();
        assert(!is_function(scope[scope.len() - 1].name));
        assert forall|j: int| i < j < outer.len() implies !is_function((#[trigger] outer[j]).name) by {
            assert(outer[j] == scope[j]);
        }
        lemma_innermost_function_is(outer, i);
    }
}

proof fn lemma_innermost_service_is(scope: Seq<ScopeSpanView>, i: int)
    requires
        -1 <= i < scope.len(),
        i >= 0 ==> scope[i].service is Some,
        forall|j: int| i < j < scope.len() ==> (#[trigger] scope[j]).service is None,
    ensures
        innermost_service(scope) == (if i >= 0 {
            scope[i].service
        } else {
            None
        }),
    decreases scope.len(),
{
    if scope.len() > 0 && i < scope.len() - 1 {
        let outer = scope.drop_last();
        assert(scope[scope.len() - 1].service is None);
        assert forall|j: int| i < j < outer.len() implies (#[trigger] outer[j]).service is None by {
            assert(outer[j] == scope[j]);
        }
        lemma_innermost_service_is(outer, i);
    }
}

/// The function label of an error signal is the name of the innermost span that
/// is a function, whatever services the spans have; where no span is one it is
/// the name of the current span.
pub proof fn law_errors_go_to_the_innermost_function(scope: Seq<ScopeSpanView>, i: int)
    requires
        scope.len() > 0,
        -1 <= i < scope.len(),
        i >= 0 ==> is_function(scope[i].name),
        forall|j: int| i < j < scope.len() ==> !is_function((#[trigger] scope[j]).name),
    ensures
        event_report("metrics::signal"@, scope) is Some,
        event_report("metrics::signal"@, scope)->0.labels.len() == 2,
        event_report("metrics::signal"@, scope)->0.labels[1] == (
            "function"@,
            if i >= 0 {
                scope[i].name
            } else {
                scope[scope.len() - 1].name
            },
        ),
{
    lemma_innermost_function_is(scope, i);
}

/// Where the current span of an error signal is a function, the error is put
/// down to it, whatever stands around it.
pub proof fn law_errors_go_to_the_current_function(scope: Seq<ScopeSpanView>)
    requires
        scope.len() > 0,
        is_function(scope.last().name),
    ensures
        event_report("metrics::signal"@, scope) is Some,
        event_report("metrics::signal"@, scope)->0.labels[1] == ("function"@, scope.last().name),
{
    law_errors_go_to_the_innermost_function(scope, scope.len() - 1);
}

/// The service label of an error signal is the service of the innermost span
/// that has one, whatever the spans are called; where no span has one it is the
/// label for none.
pub proof fn law_errors_go_to_the_innermost_service(scope: Seq<ScopeSpanView>, i: int)
    requires
        -1 <= i < scope.len(),
        i >= 0 ==> scope[i].service is Some,
        forall|j: int| i < j < scope.len() ==> (#[trigger] scope[j]).service is None,
    ensures
        event_report("metrics::signal"@, scope) is Some,
        event_report("metrics::signal"@, scope)->0.labels.len() == 2,
        event_report("metrics::signal"@, scope)->0.labels[0] == (
            "service"@,
            if i >= 0 {
                scope[i].service->0
            } else {
                "unknown"@
            },
        ),
{
    lemma_innermost_service_is(scope, i);
}

/// An event reports one more error if it is an error signal, and nothing
/// otherwise. The error is put down to the innermost function and, apart from
/// that, to the innermost service of its scope: `f` is the place of the first,
/// `s` that of the second, and minus one stands for none.
pub proof fn law_events_count_errors(
    target: &str,
    scope: &Vec<ScopeSpan>,
    report: Option<Update>,
    f: int,
    s: int,
)
    requires
        call_ensures(on_event, (target, scope), report),
        -1 <= f < scope@.len(),
        f >= 0 ==> is_function(scope@[f].name@),
        forall|j: int| f < j < scope@.len() ==> !is_function((#[trigger] scope@[j]).name@),
        -1 <= s < scope@.len(),
        s >= 0 ==> scope@[s].service is Some,
        forall|j: int| s < j < scope@.len() ==> (#[trigger] scope@[j]).service is None,
    ensures
        target@ != "metrics::signal"@ ==> report is None,
        target@ == "metrics::signal"@ ==> {
            &&& report is Some
            &&& report->0.change == Change::Count
            &&& metric::is_update_of(
                report->0,
                "function_errors_total"@,
                seq![
                    (
                        "service"@,
                        if s >= 0 {
                            scope@[s].service->0@
                        } else {
                            "unknown"@
                        },
                    ),
                    (
                        "function"@,
                        if f >= 0 {
                            scope@[f].name@
                        } else if scope@.len() > 0 {
                            scope@[scope@.len() - 1].name@
                        } else {
                            "unknown"@
                        },
                    ),
                ],
            )
        },
{
    let all = scope_view(scope@);
    assert(all.len() == scope@.len());
    assert forall|j: int| 0 <= j < all.len() implies #[trigger] all[j] == scope@[j]@ by {}
    lemma_innermost_function_is(all, f);
    lemma_innermost_service_is(all, s);
    if target@ == "metrics::signal"@ {
        metric::lemma_labels_carried(report->0, report->0@.labels);
    }
}

/// Which target error signals have.
pub proof fn law_signals_have_one_target(target: &str, signal: bool)
    requires
        call_ensures(is_signal, (target,), signal),
    ensures
        signal <==> target@ == "metrics::signal"@,
{
}

} // verus!
