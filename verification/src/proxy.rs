//! What happens to a request on its way to the upstream server and to the answer on its way back.

use crate::access;
use crate::access::{Allowlists, Trust};
use crate::behavior;
use crate::config::AppConfig;
use crate::contracts;
use crate::detection::detectors;
use crate::detection::inspection;
use crate::headers;
use crate::headers::{Header, Headers};
use crate::identity;
use crate::inventory;
use crate::inventory::RouteMemory;
use crate::mitigation;
use crate::mitigation::TemporaryMitigationStore;
use crate::outside;
use crate::policy;
use crate::records::AnalystSuppression;
use crate::routes;
use crate::store::RecordView;
use crate::text;
use crate::text::CharClass;
use crate::types;
use crate::types::{
    AttackClass, Finding, FindingView, LearnedRoute, LearnedRouteView, LivePolicyState,
    RequestContext, ResponseContract, SecurityEvent, SecurityEventView, Severity, Timestamp,
};
use vstd::prelude::*;
use vstd::utf8;

verus! {

/// The address of a path below a base address, with exactly one slash between them.
pub open spec fn upstream_url_of(
    base: Seq<char>,
    path: Seq<char>,
    query: Option<Seq<char>>,
) -> Seq<char> {
    let start = text::trim_end_of(base, CharClass::Only('/')) + "/"@ + text::trim_start_of(
        path,
        CharClass::Only('/'),
    );
    match query {
        Some(q) => if q.len() > 0 {
            start + "?"@ + q
        } else {
            start
        },
        None => start,
    }
}

pub fn build_upstream_url(base: &str, path: &str, query: Option<&str>) -> (r: String)
    ensures
        r@ == upstream_url_of(base@, path@, query.deep_view()),
{
    let base = text::trim_end_class(base, CharClass::Only('/'));
    let path = text::trim_start_class(path, CharClass::Only('/'));
    let start = text::cat3(base.as_str(), "/", path.as_str());
    match query {
        Some(q) => if q.is_empty() {
            start
        } else {
            text::cat3(start.as_str(), "?", q)
        },
        None => start,
    }
}

/// Header fields of a request that belong to one connection and are not passed on.
pub open spec fn skips_request_header(name: Seq<char>) -> bool {
    let lower = text::lower_of(name);
    lower == "host"@ || lower == "connection"@ || lower == "content-length"@ || lower
        == "transfer-encoding"@
}

pub fn should_skip_request_header(name: &str) -> (r: bool)
    ensures
        r == skips_request_header(name@),
{
    let lower = text::to_ascii_lowercase(name);
    let lower = lower.as_str();
    text::same(lower, "host") || text::same(lower, "connection") || text::same(
        lower,
        "content-length",
    ) || text::same(lower, "transfer-encoding")
}

/// Header fields of an answer that belong to one connection and are not passed on.
pub open spec fn skips_response_header(name: Seq<char>) -> bool {
    let lower = text::lower_of(name);
    lower == "connection"@ || lower == "transfer-encoding"@
}

pub fn should_skip_response_header(name: &str) -> (r: bool)
    ensures
        r == skips_response_header(name@),
{
    let lower = text::to_ascii_lowercase(name);
    let lower = lower.as_str();
    text::same(lower, "connection") || text::same(lower, "transfer-encoding")
}

/// The header fields that are passed on to the upstream server, in order.
pub open spec fn forwarded_of(fields: Seq<Header>) -> Seq<(Seq<char>, Seq<char>)>
    decreases fields.len(),
{
    if fields.len() == 0 {
        Seq::empty()
    } else {
        let before = forwarded_of(fields.drop_last());
        let field = fields.last();
        if field.value is Some && !skips_request_header(field.name@) {
            before.push((field.name@, field.value->0@))
        } else {
            before
        }
    }
}

pub fn forwarded_headers(headers: &Headers) -> (r: Vec<(String, String)>)
    ensures
        r.deep_view() == forwarded_of(headers.entries@),
{
    let ghost all = headers.entries@;
    let mut out: Vec<(String, String)> = Vec::new();
    let mut i: usize = 0;
    assert(all.take(0) =~= Seq::empty());
    assert(out.deep_view() =~= Seq::empty());
    while i < headers.entries.len()
        invariant
            i <= headers.entries@.len(),
            all == headers.entries@,
            out.deep_view() == forwarded_of(all.take(i as int)),
        decreases headers.entries@.len() - i,
    {
        assert(all.take(i + 1).drop_last() =~= all.take(i as int));
        let field = &headers.entries[i];
        if let Some(value) = &field.value {
            if !should_skip_request_header(field.name.as_str()) {
                text::push_pair(&mut out, field.name.clone(), value.clone());
            }
        }
        i = i + 1;
    }
    assert(all.take(i as int) =~= all);
    out
}

/// The finding about an answer without a security header.
pub open spec fn missing_header_finding(
    policy: LivePolicyState,
    path: Seq<char>,
    header: Seq<char>,
    rule_id: Seq<char>,
) -> FindingView {
    detectors::ruled(
        policy,
        path,
        rule_id,
        AttackClass::MissingSecurityHeaders,
        Severity::Low,
        950_000,
        "upstream response missing security header '"@ + header + "'"@,
        "response.headers"@,
        header,
    )
}

/// The findings about security headers that an answer lacks.
pub open spec fn header_gaps(policy: LivePolicyState, path: Seq<char>, h: Headers) -> Seq<
    FindingView,
> {
    let s1 = crate::detection::push_if(
        Seq::empty(),
        !headers::has_field(h, "x-content-type-options"@),
        missing_header_finding(
            policy,
            path,
            "x-content-type-options"@,
            "missing.x_content_type_options"@,
        ),
    );
    let s2 = crate::detection::push_if(
        s1,
        !headers::has_field(h, "x-frame-options"@),
        missing_header_finding(policy, path, "x-frame-options"@, "missing.x_frame_options"@),
    );
    crate::detection::push_if(
        s2,
        !headers::has_field(h, "content-security-policy"@),
        missing_header_finding(policy, path, "content-security-policy"@, "missing.csp"@),
    )
}

fn check_security_header(
    findings: &mut Vec<Finding>,
    policy: &LivePolicyState,
    path: &str,
    headers: &Headers,
    header: &str,
    rule_id: &str,
)
    ensures
        final(findings).deep_view() == crate::detection::push_if(
            old(findings).deep_view(),
            !headers::has_field(*headers, header@),
            missing_header_finding(*policy, path@, header@, rule_id@),
        ),
{
    if !headers.contains_key(header) {
        let message = text::cat3("upstream response missing security header '", header, "'");
        detectors::report(
            findings,
            policy,
            path,
            rule_id,
            AttackClass::MissingSecurityHeaders,
            Severity::Low,
            950_000,
            message.as_str(),
            "response.headers",
            header,
        );
    }
}

pub fn inspect_response_headers(
    headers: &Headers,
    policy: &LivePolicyState,
    path: Option<&str>,
) -> (r: Vec<Finding>)
    ensures
        r.deep_view() == header_gaps(
            *policy,
            (match path {
                Some(p) => p@,
                None => "/proxy"@,
            }),
            *headers,
        ),
{
    let path = match path {
        Some(p) => p,
        None => "/proxy",
    };
    let mut findings = detectors::no_findings();
    check_security_header(
        &mut findings,
        policy,
        path,
        headers,
        "x-content-type-options",
        "missing.x_content_type_options",
    );
    check_security_header(
        &mut findings,
        policy,
        path,
        headers,
        "x-frame-options",
        "missing.x_frame_options",
    );
    check_security_header(
        &mut findings,
        policy,
        path,
        headers,
        "content-security-policy",
        "missing.csp",
    );
    findings
}

/// Whether a route is among some learned routes.
pub open spec fn among(s: Seq<LearnedRouteView>, method: Seq<char>, route: Seq<char>) -> bool {
    exists|i: int|
        0 <= i < s.len() && text::lower_of((#[trigger] s[i]).method) == text::lower_of(method)
            && s[i].normalized_path == route
}

fn is_among(learned: &Vec<LearnedRoute>, method: &str, route: &str) -> (r: bool)
    ensures
        r == among(learned.deep_view(), method@, route@),
{
    let ghost all = learned.deep_view();
    let mut i: usize = 0;
    while i < learned.len()
        invariant
            i <= learned@.len(),
            all == learned.deep_view(),
            forall|j: int|
                0 <= j < i ==> !(text::lower_of((#[trigger] all[j]).method) == text::lower_of(
                    method@,
                ) && all[j].normalized_path == route@),
        decreases learned@.len() - i,
    {
        assert(all[i as int] == learned@[i as int].deep_view());
        if text::eq_ignore_ascii_case(learned[i].method.as_str(), method) && text::same(
            learned[i].normalized_path.as_str(),
            route,
        ) {
            return true;
        }
        i = i + 1;
    }
    false
}

/// The finding about a request on a live route that is not configured.
pub open spec fn shadow_findings(
    config: AppConfig,
    policy: LivePolicyState,
    known: Seq<LearnedRouteView>,
    context: RequestContext,
) -> Seq<FindingView> {
    if among(
        inventory::shadows_of(config, known),
        context.method@,
        routes::route_of(context.path@),
    ) {
        seq![
            detectors::ruled(
                policy,
                context.path@,
                "shadow.route_live"@,
                AttackClass::ShadowApi,
                Severity::Medium,
                800_000,
                "request matched a learned live route that is outside the configured spec"@,
                "request.path"@,
                context.path@,
            ),
        ]
    } else {
        Seq::empty()
    }
}

pub fn inspect_shadow_route(
    config: &AppConfig,
    policy: &LivePolicyState,
    memory: &RouteMemory,
    context: &RequestContext,
) -> (r: Vec<Finding>)
    ensures
        r.deep_view() == shadow_findings(*config, *policy, memory.deep_view(), *context),
{
    let mut findings = detectors::no_findings();
    let shadows = inventory::discover_shadow_apis(config, memory);
    let route = routes::security_route(context.path.as_str());
    if is_among(&shadows, context.method.as_str(), route.as_str()) {
        detectors::report(
            &mut findings,
            policy,
            context.path.as_str(),
            "shadow.route_live",
            AttackClass::ShadowApi,
            Severity::Medium,
            800_000,
            "request matched a learned live route that is outside the configured spec",
            "request.path",
            context.path.as_str(),
        );
        assert(findings.deep_view() =~= seq![findings.deep_view()[0]]);
    }
    findings
}

/// The findings that count: none where the request is trusted, else those that are wanted.
pub open spec fn counted_findings(
    trust: Trust,
    suppressions: Seq<crate::records::AnalystSuppressionView>,
    path: Seq<char>,
    findings: Seq<FindingView>,
) -> Seq<FindingView> {
    if access::is_trusted(trust) {
        Seq::empty()
    } else {
        access::wanted_of(suppressions, path, findings)
    }
}

/// The event about some findings and the decision on them, where there are findings.
pub open spec fn event_of(
    config: AppConfig,
    policy: LivePolicyState,
    reputations: Map<Seq<char>, RecordView>,
    context: RequestContext,
    findings: Seq<FindingView>,
) -> Option<SecurityEventView> {
    if findings.len() == 0 {
        None
    } else {
        Some(
            SecurityEventView {
                request_id: context.request_id@,
                timestamp: context.timestamp,
                source_ip: context.source_ip@,
                method: context.method@,
                path: context.path@,
                findings,
                decision: policy::decision_of(
                    config,
                    policy.policy_mode,
                    policy.detector_exceptions@,
                    context.path@,
                    mitigation::score_in(reputations, context.source_ip@),
                    findings,
                ),
                normalized_route: Some(routes::route_of(context.path@)),
            },
        )
    }
}

/// Decides on some findings, where there are any.
pub fn decide_on_findings(
    config: &AppConfig,
    policy: &LivePolicyState,
    store: &TemporaryMitigationStore,
    context: &RequestContext,
    findings: Vec<Finding>,
    now: Timestamp,
) -> (r: Option<SecurityEvent>)
    ensures
        r.deep_view() == event_of(
            *config,
            *policy,
            store.reputations(),
            *context,
            findings.deep_view(),
        ),
{
    if findings.len() == 0 {
        return None;
    }
    let copy = types::clone_findings(&findings);
    let decision = policy::evaluate_findings(config, policy, store, context, copy, now);
    Some(
        SecurityEvent {
            request_id: context.request_id.clone(),
            timestamp: context.timestamp,
            source_ip: context.source_ip.clone(),
            method: context.method.clone(),
            path: context.path.clone(),
            findings,
            decision,
            normalized_route: Some(routes::security_route(context.path.as_str())),
        },
    )
}

fn count_findings(
    trust: Trust,
    suppressions: &Vec<AnalystSuppression>,
    path: &str,
    findings: Vec<Finding>,
) -> (r: Vec<Finding>)
    ensures
        r.deep_view() == counted_findings(
            trust,
            suppressions.deep_view(),
            path@,
            findings.deep_view(),
        ),
{
    if trust.source || trust.principal {
        detectors::no_findings()
    } else {
        access::filter_suppressed_findings(suppressions, path, findings)
    }
}

/// How a request is trusted, and the event about it if there is something to report.
#[derive(Debug)]
pub struct RequestVerdict {
    pub trust: Trust,
    pub event: Option<SecurityEvent>,
}

/// Everything that was found about a request.
pub open spec fn all_request_findings(
    config: AppConfig,
    policy: LivePolicyState,
    known: Seq<LearnedRouteView>,
    context: RequestContext,
    inspected: Seq<FindingView>,
    evaluated: Seq<FindingView>,
) -> Seq<FindingView> {
    inspected + evaluated + shadow_findings(config, policy, known, context)
}

/// The trust in who makes a request.
pub open spec fn request_trust(
    config: AppConfig,
    lists: Allowlists,
    context: RequestContext,
    h: Headers,
) -> Trust {
    access::trust_of(
        lists,
        context.source_ip@,
        behavior::counted_principal(config, context, h),
        context.path@,
    )
}

/// Judges a request by what its inspection and the evaluation of its rate and history found.
pub fn judge_request(
    config: &AppConfig,
    policy: &LivePolicyState,
    memory: &RouteMemory,
    store: &TemporaryMitigationStore,
    lists: &Allowlists,
    suppressions: &Vec<AnalystSuppression>,
    context: &RequestContext,
    headers: &Headers,
    inspected: Vec<Finding>,
    evaluated: Vec<Finding>,
    now: Timestamp,
) -> (r: RequestVerdict)
    ensures
        r.trust == request_trust(*config, *lists, *context, *headers),
        r.event.deep_view() == event_of(
            *config,
            *policy,
            store.reputations(),
            *context,
            counted_findings(
                r.trust,
                suppressions.deep_view(),
                context.path@,
                all_request_findings(
                    *config,
                    *policy,
                    memory.deep_view(),
                    *context,
                    inspected.deep_view(),
                    evaluated.deep_view(),
                ),
            ),
        ),
{
    let principal = identity::derive_principal(config, context, headers);
    let principal_key = principal.as_rate_limit_key();
    let trust = access::resolve_trust(
        lists,
        context.source_ip.as_str(),
        principal_key.as_str(),
        context.path.as_str(),
    );
    let mut findings = inspected;
    types::extend_findings(&mut findings, evaluated);
    let shadows = inspect_shadow_route(config, policy, memory, context);
    types::extend_findings(&mut findings, shadows);
    let counted = count_findings(trust, suppressions, context.path.as_str(), findings);
    let event = decide_on_findings(config, policy, store, context, counted, now);
    RequestVerdict { trust, event }
}

/// Everything that is found about an answer, given its body as JSON where that could be read.
pub open spec fn all_response_findings(
    config: AppConfig,
    policy: LivePolicyState,
    contracts: Seq<crate::types::ResponseContractView>,
    context: RequestContext,
    status: u16,
    h: Headers,
    preview: Seq<char>,
    parsed: Option<crate::json::JsonNodeView>,
) -> Seq<FindingView> {
    let route = routes::route_of(context.path@);
    header_gaps(policy, context.path@, h) + inspection::response_findings(
        config,
        policy,
        context.path@,
        h,
        preview,
        parsed,
    ) + (match contracts::contract_for(contracts, context.method@, route) {
        Some(contract) => if contracts::keeps_contract(contract, status, h) {
            Seq::empty()
        } else {
            seq![
                contracts::mismatch_finding(
                    policy,
                    context.path@,
                    context.method@,
                    route,
                    contract,
                    status,
                    h,
                ),
            ]
        },
        None => Seq::empty(),
    })
}

/// Judges an answer by its status, its header fields and the start of its body.
pub fn judge_response(
    config: &AppConfig,
    policy: &LivePolicyState,
    store: &TemporaryMitigationStore,
    trust: Trust,
    suppressions: &Vec<AnalystSuppression>,
    contracts: &Vec<ResponseContract>,
    context: &RequestContext,
    status: u16,
    headers: &Headers,
    preview: &str,
    now: Timestamp,
) -> (r: Option<SecurityEvent>)
    ensures
        r.deep_view() == event_of(
            *config,
            *policy,
            store.reputations(),
            *context,
            counted_findings(
                trust,
                suppressions.deep_view(),
                context.path@,
                all_response_findings(
                    *config,
                    *policy,
                    contracts.deep_view(),
                    *context,
                    status,
                    *headers,
                    preview@,
                    outside::json_parsed(utf8::encode_utf8(preview@)),
                ),
            ),
        ),
{
    let mut findings = inspect_response_headers(headers, policy, Some(context.path.as_str()));
    let more = inspection::inspect_response(config, policy, context, headers, preview);
    types::extend_findings(&mut findings, more);
    let ghost so_far = findings.deep_view();
    let route = routes::security_route(context.path.as_str());
    let ghost mut last: Seq<FindingView> = Seq::empty();
    if let Some(contract) = contracts::find_contract(
        contracts,
        context.method.as_str(),
        route.as_str(),
    ) {
        let mismatch = contracts::check_contract(
            policy,
            context.path.as_str(),
            context.method.as_str(),
            route.as_str(),
            contract,
            status,
            headers,
        );
        if let Some(f) = mismatch {
            proof {
                last = seq![f.deep_view()];
            }
            types::push_finding(&mut findings, f);
        }
    }
    assert(findings.deep_view() =~= so_far + last);
    let counted = count_findings(trust, suppressions, context.path.as_str(), findings);
    decide_on_findings(config, policy, store, context, counted, now)
}

/// A trusted request is reported to nobody and never refused.
pub proof fn law_trusted_passes(
    config: AppConfig,
    policy: LivePolicyState,
    reputations: Map<Seq<char>, RecordView>,
    context: RequestContext,
    trust: Trust,
    suppressions: Seq<crate::records::AnalystSuppressionView>,
    findings: Seq<FindingView>,
)
    requires
        access::is_trusted(trust),
    ensures
        event_of(
            config,
            policy,
            reputations,
            context,
            counted_findings(trust, suppressions, context.path@, findings),
        ) is None,
{
}

/// No part of the address of the upstream server is lost or doubled: a path with or without a
/// leading slash, below a base with or without a trailing one, gives the same address.
pub proof fn law_one_slash(base: Seq<char>, path: Seq<char>, query: Option<Seq<char>>)
    ensures
        upstream_url_of(base.push('/'), path, query) == upstream_url_of(base, path, query),
        upstream_url_of(base, seq!['/'] + path, query) == upstream_url_of(base, path, query),
{
    assert(base.push('/').drop_last() =~= base);
    assert((seq!['/'] + path).drop_first() =~= path);
}

} // verus!
