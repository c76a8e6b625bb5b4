//! Which service a route belongs to.

use std::sync::Arc;
use vstd::prelude::*;

use crate::spans::{self, ScopeSpan, ScopeSpanView, SpanView, SVC_CTX_SPAN};
use crate::text;

verus! {

/// The route label of a request that no route pattern matched.
pub const UNMATCHED_ROUTE: &'static str = "unmatched_route";

/// The service that a request was assigned to.
#[derive(Debug)]
pub struct ServiceTag(pub String);

impl View for ServiceTag {
    type V = Seq<char>;

    open spec fn view(&self) -> Seq<char> {
        self.0@
    }
}

impl Clone for ServiceTag {
    fn clone(&self) -> (copy: Self)
        ensures
            copy == *self,
    {
        ServiceTag(self.0.clone())
    }
}

/// What a rule asks of a route.
#[derive(Debug)]
enum Rule {
    /// The route is this text.
    Exact(String),
    /// The route begins with this text.
    Prefix(String),
}

/// A rule over characters.
pub enum RuleView {
    Exact(Seq<char>),
    Prefix(Seq<char>),
}

impl View for Rule {
    type V = RuleView;

    closed spec fn view(&self) -> RuleView {
        match *self {
            Rule::Exact(path) => RuleView::Exact(path@),
            Rule::Prefix(prefix) => RuleView::Prefix(prefix@),
        }
    }
}

impl RuleView {
    /// Whether the rule applies to `route`.
    pub open spec fn matches_route(self, route: Seq<char>) -> bool {
        match self {
            RuleView::Exact(path) => route == path,
            RuleView::Prefix(prefix) => prefix.is_prefix_of(route),
        }
    }
}

impl Clone for Rule {
    fn clone(&self) -> (copy: Self)
        ensures
            copy == *self,
    {
        match self {
            Rule::Exact(path) => Rule::Exact(path.clone()),
            Rule::Prefix(prefix) => Rule::Prefix(prefix.clone()),
        }
    }
}

impl Rule {
    /// Whether the rule applies to `route`.
    pub fn matches_route(&self, route: &str) -> (applies: bool)
        ensures
            applies == self@.matches_route(route@),
    {
        match self {
            Rule::Exact(path) => text::same(route, path.as_str()),
            Rule::Prefix(prefix) => text::starts_with(route, prefix.as_str()),
        }
    }
}

/// An ordered list of rules with a service each, and the service of the routes
/// that no rule applies to.
pub struct ServiceMap {
    default: String,
    rules: Arc<Vec<(Rule, String)>>,
}

/// A service map over characters.
pub struct ServiceMapView {
    pub default: Seq<char>,
    pub rules: Seq<(RuleView, Seq<char>)>,
}

/// The rules and their services over characters.
spec fn rule_views(rules: Seq<(Rule, String)>) -> Seq<(RuleView, Seq<char>)> {
    rules.map_values(|entry: (Rule, String)| (entry.0@, entry.1@))
}

impl View for ServiceMap {
    type V = ServiceMapView;

    closed spec fn view(&self) -> ServiceMapView {
        ServiceMapView { default: self.default@, rules: rule_views((*self.rules)@) }
    }
}

impl ServiceMapView {
    /// The position of the first rule that applies to `route`, or the number of
    /// rules where none does.
    pub open spec fn first_match(self, route: Seq<char>) -> nat {
        first_match(self.rules, route)
    }

    /// The service of `route`: that of the first rule that applies, else the default.
    pub open spec fn service_of(self, route: Seq<char>) -> Seq<char> {
        let i = self.first_match(route);
        if i < self.rules.len() {
            self.rules[i as int].1
        } else {
            self.default
        }
    }

    /// The map with one more rule at its end.
    pub open spec fn with_rule(self, rule: RuleView, service: Seq<char>) -> ServiceMapView {
        ServiceMapView { default: self.default, rules: self.rules.push((rule, service)) }
    }
}

/// The position of the first of `rules` that applies to `route`, or their number
/// where none does.
pub open spec fn first_match(rules: Seq<(RuleView, Seq<char>)>, route: Seq<char>) -> nat
    decreases rules.len(),
{
    if rules.len() == 0 {
        0
    } else if rules[0].0.matches_route(route) {
        0
    } else {
        1 + first_match(rules.drop_first(), route)
    }
}

/// `first_match` is the least position whose rule applies.
pub proof fn lemma_first_match(rules: Seq<(RuleView, Seq<char>)>, route: Seq<char>)
    ensures
        first_match(rules, route) <= rules.len(),
        forall|j: int|
            0 <= j < first_match(rules, route) ==> !(#[trigger] rules[j]).0.matches_route(route),
        first_match(rules, route) < rules.len() ==> rules[first_match(
            rules,
            route,
        ) as int].0.matches_route(route),
    decreases rules.len(),
{
    if rules.len() > 0 && !rules[0].0.matches_route(route) {
        let tail = rules.drop_first();
        lemma_first_match(tail, route);
        assert forall|j: int| 0 <= j < first_match(rules, route) implies !(
        #[trigger] rules[j]).0.matches_route(route) by {
            if j > 0 {
                assert(rules[j] == tail[j - 1]);
            }
        }
    }
}

/// Any position whose rule applies and which no applying rule precedes is `first_match`.
pub proof fn lemma_first_match_is(rules: Seq<(RuleView, Seq<char>)>, route: Seq<char>, i: int)
    requires
        0 <= i <= rules.len(),
        forall|j: int| 0 <= j < i ==> !(#[trigger] rules[j]).0.matches_route(route),
        i < rules.len() ==> rules[i].0.matches_route(route),
    ensures
        first_match(rules, route) == i,
{
    lemma_first_match(rules, route);
    let k = first_match(rules, route) as int;
    if k < i {
        assert(!rules[k].0.matches_route(route));
    }
    if i < k {
        assert(!rules[i].0.matches_route(route));
    }
}

/// A copy of `rules`.
fn copy_rules(rules: &Vec<(Rule, String)>) -> (copy: Vec<(Rule, String)>)
    ensures
        copy@ == rules@,
{
    let mut copy: Vec<(Rule, String)> = Vec::new();
    let mut i: usize = 0;
    while i < rules.len()
        invariant
            i <= rules@.len(),
            copy@ == rules@.take(i as int),
        decreases rules@.len() - i,
    {
        let entry: &(Rule, String) = &rules[i];
        copy.push((entry.0.clone(), entry.1.clone()));
        assert(rules@.take(i + 1) =~= rules@.take(i as int).push(rules@[i as int]));
        i = i + 1;
    }
    assert(rules@.take(i as int) =~= rules@);
    copy
}

/// Whether converting `value` into a `String` can give the characters `t`.
pub open spec fn converts<D: Into<String>>(value: D, t: Seq<char>) -> bool {
    exists|s: String| #[trigger]
        call_ensures(<D as Into<String>>::into, (value,), s) && s@ == t
}

/// `String::from` on a `&str`: the string holds the characters of the slice.
pub assume_specification<'a>[ <String as From<&'a str>>::from ](s: &str) -> (t: String)
    ensures
        t@ == s@,
;

/// `From` of a type for itself, which is how a `String` converts into a
/// `String`: the value is handed back unchanged.
pub assume_specification<X>[ <X as From<X>>::from ](x: X) -> (same: X)
    ensures
        same == x,
;

impl ServiceMap {
    /// A map without rules: every route belongs to `default`.
    pub fn new<D: Into<String>>(default: D) -> (map: Self)
        ensures
            converts(default, map@.default),
            map@.rules == Seq::<(RuleView, Seq<char>)>::empty(),
    {
        let map = ServiceMap { default: default.into(), rules: Arc::new(Vec::new()) };
        assert(map@.rules =~= Seq::empty());
        map
    }

    /// The map with one more rule at its end: the route `path` belongs to `service`.
    pub fn exact<P: Into<String>, S: Into<String>>(self, path: P, service: S) -> (map: Self)
        ensures
            map@ == self@.with_rule(map@.rules.last().0, map@.rules.last().1),
            map@.rules.last().0 matches RuleView::Exact(p) && converts(path, p),
            converts(service, map@.rules.last().1),
    {
        let p: String = path.into();
        let s: String = service.into();
        self.push_rule(Rule::Exact(p), s)
    }

    /// The map with one more rule at its end: every route that begins with
    /// `prefix` belongs to `service`.
    pub fn prefix<P: Into<String>, S: Into<String>>(self, prefix: P, service: S) -> (map: Self)
        ensures
            map@ == self@.with_rule(map@.rules.last().0, map@.rules.last().1),
            map@.rules.last().0 matches RuleView::Prefix(p) && converts(prefix, p),
            converts(service, map@.rules.last().1),
    {
        let p: String = prefix.into();
        let s: String = service.into();
        self.push_rule(Rule::Prefix(p), s)
    }

    fn push_rule(self, rule: Rule, service: String) -> (map: Self)
        ensures
            map@ == self@.with_rule(rule@, service@),
    {
        let mut rules = copy_rules(&*self.rules);
        rules.push((rule, service));
        let map = ServiceMap { default: self.default, rules: Arc::new(rules) };
        assert(map@.rules =~= self@.rules.push((rule@, service@)));
        map
    }

    /// The service that `route` belongs to: that of the first rule that applies
    /// to it, else the default.
    pub fn service_of(&self, route: &str) -> (service: String)
        ensures
            service@ == self@.service_of(route@),
    {
        let mut i: usize = 0;
        while i < self.rules.len()
            invariant
                i <= self.rules@.len(),
                self@.rules.len() == self.rules@.len(),
                forall|j: int|
                    0 <= j < i ==> !(#[trigger] self@.rules[j]).0.matches_route(route@),
            decreases self.rules@.len() - i,
        {
            let entry: &(Rule, String) = &self.rules[i];
            assert(self@.rules[i as int] == (entry.0@, entry.1@));
            if entry.0.matches_route(route) {
                proof {
                    lemma_first_match_is(self@.rules, route@, i as int);
                }
                return entry.1.clone();
            }
            i = i + 1;
        }
        proof {
            lemma_first_match_is(self@.rules, route@, i as int);
        }
        self.default.clone()
    }
}

impl Clone for ServiceMap {
    fn clone(&self) -> (copy: Self)
        ensures
            copy@ == self@,
    {
        ServiceMap { default: self.default.clone(), rules: self.rules.clone() }
    }
}

/// The route label of a request: the route pattern that matched it, never its path.
pub open spec fn route_label(matched: Option<Seq<char>>) -> Seq<char> {
    match matched {
        Some(pattern) => pattern,
        None => UNMATCHED_ROUTE@,
    }
}

/// The route label of a request whose route pattern is `matched`.
pub fn matched_route(matched: Option<&str>) -> (route: String)
    ensures
        route@ == route_label(text::text_view(matched)),
{
    match matched {
        Some(pattern) => String::from(pattern),
        None => String::from(UNMATCHED_ROUTE),
    }
}

/// The span that a request of this service runs in, over characters.
pub open spec fn request_span_view(service: Seq<char>) -> ScopeSpanView {
    ScopeSpanView { name: SVC_CTX_SPAN@, service: Some(service) }
}

/// The span that a request with this tag runs in.
pub fn request_span(tag: &ServiceTag) -> (span: ScopeSpan)
    ensures
        span@ == request_span_view(tag@),
{
    ScopeSpan { name: SVC_CTX_SPAN, service: Some(String::from(tag.0.as_str())) }
}

/// What a request carries once its service is known.
#[derive(Debug)]
pub struct TaggedRequest {
    /// The tag that the request carries from here on.
    pub tag: ServiceTag,
    /// The span that the rest of the request runs in.
    pub span: ScopeSpan,
}

/// The tag and the span of a request with the route pattern `matched`: both name
/// the service that the map assigns to the request's route label.
pub fn tag_service_with_state(service_map: &ServiceMap, matched: Option<&str>) -> (tagged:
    TaggedRequest)
    ensures
        tagged.tag@ == service_map@.service_of(route_label(text::text_view(matched))),
        tagged.span@ == request_span_view(tagged.tag@),
{
    let route = matched_route(matched);
    let tag = ServiceTag(service_map.service_of(route.as_str()));
    let span = request_span(&tag);
    TaggedRequest { tag, span }
}

/// Whatever stands around the span of a tagged request, all that runs inside it
/// belongs to the request's service until a span inside names another one.
pub proof fn law_request_service_holds_inside(
    service: Seq<char>,
    outer: Seq<Option<Seq<char>>>,
    inner: Seq<Option<Seq<char>>>,
    i: int,
)
    requires
        0 <= i <= inner.len(),
        forall|j: int| 0 <= j < i ==> (#[trigger] inner[j]) is None,
    ensures
        spans::nested_services(
            outer.push(request_span_view(service).service) + inner,
        )[outer.len() + i] == Some(service),
{
    let declared = outer.push(request_span_view(service).service) + inner;
    let k = outer.len() as int;
    assert(declared[k] == Some(service));
    assert forall|j: int| k < j <= k + i implies (#[trigger] declared[j]) is None by {
        assert(declared[j] == inner[j - k - 1]);
    }
    spans::law_named_service_holds_inside(declared, k, k + i);
}

/// The span of a tagged request is no function: its end reports no duration.
pub proof fn law_request_span_is_not_timed(
    service: Seq<char>,
    span: Option<SpanView>,
    now: u128,
)
    ensures
        spans::close_report(request_span_view(service).name, span, now) is None,
{
}

/// A map without rules sends every route to its default service.
pub proof fn law_no_rules_means_default(map: ServiceMapView, route: Seq<char>)
    requires
        map.rules.len() == 0,
    ensures
        map.service_of(route) == map.default,
{
}

/// Rules are tried in the order in which they were added: one more rule leaves
/// every route alone that an earlier rule applies to, and takes those of the
/// others that it applies to.
pub proof fn law_earlier_rules_win(
    map: ServiceMapView,
    rule: RuleView,
    service: Seq<char>,
    route: Seq<char>,
)
    ensures
        map.with_rule(rule, service).service_of(route) == (if map.first_match(route)
            < map.rules.len() {
            map.service_of(route)
        } else if rule.matches_route(route) {
            service
        } else {
            map.default
        }),
{
    let more = map.with_rule(rule, service);
    let i = map.first_match(route) as int;
    lemma_first_match(map.rules, route);
    assert forall|j: int| 0 <= j < map.rules.len() implies #[trigger] more.rules[j]
        == map.rules[j] by {}
    if i < map.rules.len() {
        lemma_first_match_is(more.rules, route, i);
    } else if rule.matches_route(route) {
        lemma_first_match_is(more.rules, route, i);
    } else {
        lemma_first_match_is(more.rules, route, i + 1);
    }
}

/// A route belongs to the default service or to the service of one of the
/// rules: no route brings in a service that the map does not name.
pub proof fn law_services_are_named(map: ServiceMapView, route: Seq<char>)
    ensures
        map.service_of(route) == map.default || exists|i: int|
            0 <= i < map.rules.len() && (#[trigger] map.rules[i]).0.matches_route(route)
                && map.service_of(route) == map.rules[i].1,
{
    lemma_first_match(map.rules, route);
    let i = map.first_match(route) as int;
    if i < map.rules.len() {
        assert(map.rules[i].0.matches_route(route));
    }
}

/// With a fixed set of route patterns there is at most one route label more than
/// there are patterns, however many paths are requested: a label is one of the
/// patterns, or the one label that all unmatched requests share.
pub proof fn law_route_labels_are_bounded(
    patterns: Set<Seq<char>>,
    matched: Option<Seq<char>>,
)
    requires
        matched is Some ==> patterns.contains(matched->0),
    ensures
        patterns.insert(UNMATCHED_ROUTE@).contains(route_label(matched)),
        patterns.finite() ==> patterns.insert(UNMATCHED_ROUTE@).len() <= patterns.len() + 1,
{
}

/// An exact rule applies to its own path, and to one route only.
pub proof fn law_exact_rules_take_one_route(path: Seq<char>, a: Seq<char>, b: Seq<char>)
    ensures
        RuleView::Exact(path).matches_route(path),
        RuleView::Exact(path).matches_route(a) && RuleView::Exact(path).matches_route(b) ==> a
            == b,
{
}

/// A prefix rule applies to its own path and to all that goes on from there, and
/// to nothing else.
pub proof fn law_prefix_rules_take_what_goes_on(prefix: Seq<char>, route: Seq<char>)
    ensures
        RuleView::Prefix(prefix).matches_route(route) <==> exists|rest: Seq<char>|
            route == #[trigger] (prefix + rest),
{
    text::lemma_prefix_is_beginning(route, prefix);
}

/// Whether a rule is for `route`: an exact rule for the route that it names, a
/// prefix rule for every route that goes on from it.
pub open spec fn is_for(rule: RuleView, route: Seq<char>) -> bool {
    match rule {
        RuleView::Exact(path) => path == route,
        RuleView::Prefix(prefix) => exists|rest: Seq<char>| route == #[trigger] (prefix + rest),
    }
}

proof fn lemma_is_for(rule: RuleView, route: Seq<char>)
    ensures
        rule.matches_route(route) == is_for(rule, route),
{
    if let RuleView::Prefix(prefix) = rule {
        law_prefix_rules_take_what_goes_on(prefix, route);
    }
}

/// The first rule that is for a route decides its service; where no rule is for
/// it, the default does.
pub proof fn law_first_rule_for_a_route_decides(map: ServiceMapView, route: Seq<char>, k: int)
    requires
        0 <= k <= map.rules.len(),
        forall|j: int| 0 <= j < k ==> !is_for((#[trigger] map.rules[j]).0, route),
        k < map.rules.len() ==> is_for(map.rules[k].0, route),
    ensures
        k < map.rules.len() ==> map.service_of(route) == map.rules[k].1,
        k == map.rules.len() ==> map.service_of(route) == map.default,
{
    assert forall|j: int| 0 <= j < k implies !(#[trigger] map.rules[j]).0.matches_route(route) by {
        lemma_is_for(map.rules[j].0, route);
    }
    if k < map.rules.len() {
        lemma_is_for(map.rules[k].0, route);
    }
    lemma_first_match_is(map.rules, route, k);
}

/// Where the only rule of a map is exact, every route but that of the rule
/// belongs to the default service.
pub proof fn law_only_exact_rule(map: ServiceMapView, path: Seq<char>, route: Seq<char>)
    requires
        map.rules.len() == 1,
        map.rules[0].0 == RuleView::Exact(path),
    ensures
        map.service_of(path) == map.rules[0].1,
        route != path ==> map.service_of(route) == map.default,
{
    law_first_rule_for_a_route_decides(map, path, 0);
    if route != path {
        law_first_rule_for_a_route_decides(map, route, 1);
    }
}

/// A new map answers its default for every route.
pub proof fn law_new_map_answers_its_default(
    default: &str,
    map: ServiceMap,
    route: &str,
    service: String,
)
    requires
        call_ensures(ServiceMap::new::<&str>, (default,), map),
        call_ensures(ServiceMap::service_of, (&map, route), service),
    ensures
        service@ == default@,
{
    law_first_rule_for_a_route_decides(map@, route@, 0);
}

/// One more exact rule changes the answer for the route that it names and for no
/// other, and only where no earlier rule was for that route.
pub proof fn law_exact_adds_one_route(
    map: ServiceMap,
    path: &str,
    service: &str,
    more: ServiceMap,
    route: &str,
    before: String,
    after: String,
)
    requires
        call_ensures(ServiceMap::exact::<&str, &str>, (map, path, service), more),
        call_ensures(ServiceMap::service_of, (&map, route), before),
        call_ensures(ServiceMap::service_of, (&more, route), after),
    ensures
        route@ != path@ ==> after@ == before@,
        route@ == path@ && (forall|j: int|
            0 <= j < map@.rules.len() ==> !is_for((#[trigger] map@.rules[j]).0, route@))
            ==> after@ == service@,
        (exists|j: int| 0 <= j < map@.rules.len() && is_for((#[trigger] map@.rules[j]).0, route@))
            ==> after@ == before@,
{
    assert(more@.rules.last() == (RuleView::Exact(path@), service@));
    lemma_rule_added(map@, RuleView::Exact(path@), service@, route@);
}

/// One more prefix rule changes the answer for the routes that go on from it and
/// for no other, and only where no earlier rule was for the route.
pub proof fn law_prefix_adds_what_goes_on(
    map: ServiceMap,
    prefix: &str,
    service: &str,
    more: ServiceMap,
    route: &str,
    before: String,
    after: String,
)
    requires
        call_ensures(ServiceMap::prefix::<&str, &str>, (map, prefix, service), more),
        call_ensures(ServiceMap::service_of, (&map, route), before),
        call_ensures(ServiceMap::service_of, (&more, route), after),
    ensures
        !(exists|rest: Seq<char>| route@ == #[trigger] (prefix@ + rest)) ==> after@ == before@,
        (exists|rest: Seq<char>| route@ == #[trigger] (prefix@ + rest)) && (forall|j: int|
            0 <= j < map@.rules.len() ==> !is_for((#[trigger] map@.rules[j]).0, route@))
            ==> after@ == service@,
        (exists|j: int| 0 <= j < map@.rules.len() && is_for((#[trigger] map@.rules[j]).0, route@))
            ==> after@ == before@,
{
    assert(more@.rules.last() == (RuleView::Prefix(prefix@), service@));
    lemma_rule_added(map@, RuleView::Prefix(prefix@), service@, route@);
}

proof fn lemma_rule_added(
    map: ServiceMapView,
    rule: RuleView,
    service: Seq<char>,
    route: Seq<char>,
)
    ensures
        !is_for(rule, route) ==> map.with_rule(rule, service).service_of(route) == map.service_of(
            route,
        ),
        is_for(rule, route) && (forall|j: int|
            0 <= j < map.rules.len() ==> !is_for((#[trigger] map.rules[j]).0, route))
            ==> map.with_rule(rule, service).service_of(route) == service,
        (exists|j: int| 0 <= j < map.rules.len() && is_for((#[trigger] map.rules[j]).0, route))
            ==> map.with_rule(rule, service).service_of(route) == map.service_of(route),
{
    law_earlier_rules_win(map, rule, service, route);
    lemma_is_for(rule, route);
    lemma_first_match(map.rules, route);
    assert forall|j: int| 0 <= j < map.rules.len() implies is_for((#[trigger] map.rules[j]).0, route)
        == map.rules[j].0.matches_route(route) by {
        lemma_is_for(map.rules[j].0, route);
    }
    let i = map.first_match(route) as int;
    if i < map.rules.len() {
        assert(is_for(map.rules[i].0, route));
    }
}

/// A new map with one exact rule answers the rule's service for the rule's path
/// and its default for everything else.
pub proof fn law_map_of_one_exact_rule(
    default: &str,
    empty: ServiceMap,
    path: &str,
    service: &str,
    map: ServiceMap,
    route: &str,
    answer: String,
)
    requires
        call_ensures(ServiceMap::new::<&str>, (default,), empty),
        call_ensures(ServiceMap::exact::<&str, &str>, (empty, path, service), map),
        call_ensures(ServiceMap::service_of, (&map, route), answer),
    ensures
        route@ == path@ ==> answer@ == service@,
        route@ != path@ ==> answer@ == default@,
{
    assert(map@.rules.last() == (RuleView::Exact(path@), service@));
    law_only_exact_rule(map@, path@, route@);
}

/// A new map with one prefix rule answers the rule's service for all that goes on
/// from the rule's path and its default for everything else.
pub proof fn law_map_of_one_prefix_rule(
    default: &str,
    empty: ServiceMap,
    prefix: &str,
    service: &str,
    map: ServiceMap,
    route: &str,
    answer: String,
)
    requires
        call_ensures(ServiceMap::new::<&str>, (default,), empty),
        call_ensures(ServiceMap::prefix::<&str, &str>, (empty, prefix, service), map),
        call_ensures(ServiceMap::service_of, (&map, route), answer),
    ensures
        (exists|rest: Seq<char>| route@ == #[trigger] (prefix@ + rest)) ==> answer@ == service@,
        !(exists|rest: Seq<char>| route@ == #[trigger] (prefix@ + rest)) ==> answer@ == default@,
{
    assert(map@.rules.last() == (RuleView::Prefix(prefix@), service@));
    if is_for(RuleView::Prefix(prefix@), route@) {
        law_first_rule_for_a_route_decides(map@, route@, 0);
    } else {
        law_first_rule_for_a_route_decides(map@, route@, 1);
    }
}

/// What a value converts into is what its conversion gives, for texts and
/// strings the text itself.
pub proof fn law_conversions_keep_the_text(a: &str, b: String, t: Seq<char>)
    ensures
        converts(a, t) ==> t == a@,
        converts(b, t) ==> t == b@,
{
}

/// A copy of a tag names the same service.
pub proof fn law_copies_name_the_same_service(tag: ServiceTag, copy: ServiceTag)
    requires
        call_ensures(<ServiceTag as Clone>::clone, (&tag,), copy),
    ensures
        copy.0@ == tag.0@,
{
}

/// A copy of a map answers every route as the map does.
pub proof fn law_copies_answer_alike(
    map: ServiceMap,
    copy: ServiceMap,
    route: &str,
    a: String,
    b: String,
)
    requires
        call_ensures(<ServiceMap as Clone>::clone, (&map,), copy),
        call_ensures(ServiceMap::service_of, (&map, route), a),
        call_ensures(ServiceMap::service_of, (&copy, route), b),
    ensures
        a@ == b@,
{
}

/// The route label of a request is the pattern that matched it, as it stands, or
/// the one label for all requests that nothing matched.
pub proof fn law_route_labels(matched: Option<&str>, route: String)
    requires
        call_ensures(matched_route, (matched,), route),
    ensures
        matched is Some ==> route@ == matched->0@,
        matched is None ==> route@ == "unmatched_route"@,
{
}

/// A request is tagged with what the map answers for its route label, and its
/// span, which is named for it, carries the same service.
pub proof fn law_tags_are_what_the_map_answers(
    map: &ServiceMap,
    matched: Option<&str>,
    tagged: TaggedRequest,
    route: &str,
    answer: String,
)
    requires
        call_ensures(tag_service_with_state, (map, matched), tagged),
        call_ensures(ServiceMap::service_of, (map, route), answer),
        matched is Some ==> route@ == matched->0@,
        matched is None ==> route@ == "unmatched_route"@,
    ensures
        tagged.tag.0@ == answer@,
        tagged.span.name@ == "svc_ctx"@,
        tagged.span.service is Some,
        tagged.span.service->0@ == answer@,
{
}

/// The span of a tag carries the tag's service under the name of request spans.
pub proof fn law_request_spans_carry_the_tag(tag: &ServiceTag, span: ScopeSpan)
    requires
        call_ensures(request_span, (tag,), span),
    ensures
        span.name@ == "svc_ctx"@,
        span.service is Some,
        span.service->0@ == tag.0@,
{
}

} // verus!
