//! The inspection of a whole request or response.

use crate::config::AppConfig;
use crate::dedupe;
use crate::detection;
use crate::detection::detectors;
use crate::detection::detectors::{
    ApiInventoryDetector, AuthDetector, BodyDetector, DetectionState, Detector, HeaderDetector,
    JwtSecurityDetector, MethodDetector, ObjectAbuseDetector, PathDetector, ResourceAbuseDetector,
};
use crate::detection::normalization;
use crate::detection::normalization::NormalizedRequest;
use crate::detection::schema_learning;
use crate::detection::schema_learning::{LearnedJsonSchemaView, SchemaMemory};
use crate::detection::tokens;
use crate::headers;
use crate::headers::Headers;
use crate::identity;
use crate::inventory;
use crate::inventory::RouteMemory;
use crate::json;
use crate::json::{JsonNode, JsonNodeView};
use crate::outside;
use crate::policy;
use crate::routes;
use crate::text;
use crate::types;
use crate::types::{
    AttackClass, EnrichedRequestContext, Finding, FindingView, LearnedRouteView, LivePolicyState, RequestContext, Severity,
    Timestamp,
};
use crate::validation;
use vstd::prelude::*;
use vstd::utf8;

verus! {

/// What tells findings apart: the rule, and the place of the first piece of evidence.
pub open spec fn finding_key(f: FindingView) -> Seq<char> {
    f.rule_id + ":"@ + (if f.evidence.len() == 0 {
        ""@
    } else {
        f.evidence[0].location
    })
}

pub open spec fn by_finding_key() -> spec_fn(FindingView) -> Seq<char> {
    |f: FindingView| finding_key(f)
}

/// Keeps the first of several findings of one rule in one place.
pub fn dedupe_findings(findings: Vec<Finding>) -> (r: Vec<Finding>)
    ensures
        r.deep_view() == dedupe::first_by_key(findings.deep_view(), by_finding_key()),
{
    let ghost all = findings.deep_view();
    let ghost key = by_finding_key();
    let mut seen: Vec<String> = Vec::new();
    let mut out: Vec<Finding> = Vec::new();
    let mut i: usize = 0;
    assert(all.take(0) =~= Seq::empty());
    assert(out.deep_view() =~= Seq::empty());
    while i < findings.len()
        invariant
            i <= findings@.len(),
            all == findings.deep_view(),
            key == by_finding_key(),
            out.deep_view() == dedupe::first_by_key(all.take(i as int), key),
            forall|k: Seq<char>| #[trigger]
                seen.deep_view().contains(k) == dedupe::has_key(all.take(i as int), key, k),
        decreases findings@.len() - i,
    {
        let ghost d = all.take(i as int);
        let ghost s = all.take(i + 1);
        let ghost item = all[i as int];
        let finding = &findings[i];
        assert(item == finding.deep_view());
        let place = if finding.evidence.len() == 0 {
            ""
        } else {
            assert(item.evidence[0] == finding.evidence@[0].deep_view());
            finding.evidence[0].location.as_str()
        };
        let k = text::cat3(finding.rule_id.as_str(), ":", place);
        assert(s.drop_last() =~= d);
        assert(s.last() == item && key(item) == k@);
        if !text::list_contains(&seen, k.as_str()) {
            types::push_finding(&mut out, finding.clone());
        }
        let ghost before = seen.deep_view();
        text::push_text(&mut seen, k);
        proof {
            policy::lemma_keys_grow(before, d, item, key);
            assert(d.push(item) =~= s);
        }
        i = i + 1;
    }
    assert(all.take(i as int) =~= all);
    out
}

/// The name under which the bodies of a request's route are learned.
pub open spec fn schema_key(request: RequestContext) -> Seq<char> {
    text::upper_of(request.method@) + ":"@ + routes::route_of(request.path@)
}

/// The body of a request as JSON.
pub open spec fn parsed_body(request: RequestContext) -> Option<JsonNodeView> {
    outside::json_parsed(utf8::encode_utf8(request.body_preview.deep_view()->0))
}

/// What is found by comparing the body of a request with what was learned.
pub open spec fn learned_findings(
    config: AppConfig,
    policy: LivePolicyState,
    schemas: Seq<(Seq<char>, LearnedJsonSchemaView)>,
    request: RequestContext,
    h: Headers,
) -> Seq<FindingView> {
    if config.discovery.enabled {
        schema_learning::body_findings(
            schemas,
            schema_key(request),
            request.body_preview.deep_view(),
            normalization::normalized_of(request, h, detection::limits_of(config)).content_type,
            parsed_body(request),
            config.discovery,
            types::rule_mode_of(policy, request.path@, "UZ-API-SCHEMA-000"@),
        )
    } else {
        Seq::empty()
    }
}

/// What the body of a request adds to what was learned.
pub open spec fn learned_after(
    config: AppConfig,
    schemas: Seq<(Seq<char>, LearnedJsonSchemaView)>,
    request: RequestContext,
    h: Headers,
) -> Seq<(Seq<char>, LearnedJsonSchemaView)> {
    if config.discovery.enabled {
        schema_learning::memory_after_body(
            schemas,
            schema_key(request),
            request.body_preview.deep_view(),
            normalization::normalized_of(request, h, detection::limits_of(config)).content_type,
            parsed_body(request),
            config.discovery,
        )
    } else {
        schemas
    }
}

/// The scopes that the route of a request asks for.
pub open spec fn scopes_required(config: AppConfig, request: RequestContext) -> Seq<Seq<char>> {
    match routes::match_in(
        routes::compiled_routes(config),
        request.method@,
        routes::route_of(request.path@),
    ) {
        Some(route) => route.required_scopes,
        None => Seq::empty(),
    }
}

/// The tenant on whose behalf a request is made.
pub open spec fn acting_tenant(h: Headers) -> Option<Seq<char>> {
    validation::either(
        identity::claim(identity::claims_of(h), "tenant_id"@),
        headers::field_text(h, "x-tenant-id"@),
    )
}

/// What the checks of the declared interface and the inventory find.
pub open spec fn route_findings(
    config: AppConfig,
    policy: LivePolicyState,
    known: Seq<LearnedRouteView>,
    hits: u64,
    request: RequestContext,
    h: Headers,
) -> Seq<FindingView> {
    let route = routes::route_of(request.path@);
    let checked = validation::validation_of(
        config,
        policy,
        request,
        route,
        h,
        validation::body_json(request),
    );
    (match checked.finding {
        Some(f) => seq![f],
        None => Seq::empty(),
    }) + detectors::inventory_findings(
        config,
        policy,
        request.path@,
        route,
        hits,
        inventory::deprecated_in(known, request.method@, route),
    )
}

/// What the looks at the parts of a request find.
pub open spec fn content_findings(
    config: AppConfig,
    policy: LivePolicyState,
    request: RequestContext,
    h: Headers,
) -> Seq<FindingView> {
    let path = request.path@;
    let n = normalization::normalized_of(request, h, detection::limits_of(config));
    detectors::auth_findings(config, policy, path, request.auth_status)
        + detectors::method_findings(config, policy, path, request.method@)
        + detection::candidate_findings(
        config,
        policy,
        path,
        "request.path_or_query"@,
        detectors::path_candidates(config, n),
    ) + (if config.security.inspect_headers {
        detectors::header_findings(
            policy,
            path,
            h,
            n.method,
            request.body_preview.deep_view(),
        )
    } else {
        Seq::empty()
    }) + (if config.security.inspect_body {
        detection::candidate_findings(
            config,
            policy,
            path,
            "request.body"@,
            detectors::body_candidates(n.inspection_values),
        )
    } else {
        Seq::empty()
    })
}

/// What the looks at who asks for what find.
pub open spec fn usage_findings(
    config: AppConfig,
    policy: LivePolicyState,
    request: RequestContext,
    h: Headers,
) -> Seq<FindingView> {
    let path = request.path@;
    tokens::token_findings(config, policy, path, scopes_required(config, request), h)
        + detectors::object_findings(
        policy,
        path,
        identity::object_ids_of(request),
        acting_tenant(h),
        detectors::tenant_hint_of(request),
    ) + detectors::resource_findings(
        config,
        policy,
        path,
        normalization::normalized_of(request, h, detection::limits_of(config)),
        headers::field_text(h, "content-length"@),
    )
}

/// Everything that is found about a request, in the order of the checks. `known` holds the routes
/// with this request counted, `hits` how often its own route was asked for.
pub open spec fn request_findings(
    config: AppConfig,
    policy: LivePolicyState,
    known: Seq<LearnedRouteView>,
    hits: u64,
    schemas: Seq<(Seq<char>, LearnedJsonSchemaView)>,
    request: RequestContext,
    h: Headers,
) -> Seq<FindingView> {
    route_findings(config, policy, known, hits, request, h) + content_findings(
        config,
        policy,
        request,
        h,
    ) + usage_findings(config, policy, request, h) + learned_findings(
        config,
        policy,
        schemas,
        request,
        h,
    )
}

/// The routes that are known once a request is counted.
pub open spec fn known_after(
    config: AppConfig,
    known: Seq<LearnedRouteView>,
    request: RequestContext,
    now: Timestamp,
) -> Seq<LearnedRouteView> {
    inventory::remembered(
        known,
        request.method@,
        routes::route_of(request.path@),
        request.auth_status == types::AuthStatus::Satisfied,
        now,
        config.discovery.max_learned_routes,
    )
}

/// Checks a request against the declared interface and the inventory.
fn check_route(
    state: &DetectionState,
    context: &RequestContext,
    enriched: &EnrichedRequestContext,
    normalized: &NormalizedRequest,
    headers: &Headers,
) -> (r: Vec<Finding>)
    requires
        validation::enriched_from(
            *state.config,
            *context,
            *headers,
            enriched.learned_route_hits,
            *enriched,
        ),
    ensures
        r.deep_view() == route_findings(
            *state.config,
            *state.policy,
            state.memory.deep_view(),
            enriched.learned_route_hits,
            *context,
            *headers,
        ),
{
    let checked = validation::validate_against_spec(
        state.config,
        state.policy,
        enriched,
        headers,
    );
    let mut findings = detectors::no_findings();
    if let Some(finding) = checked.finding {
        types::push_finding(&mut findings, finding);
    }
    let more = ApiInventoryDetector.detect(state, enriched, normalized, headers);
    types::extend_findings(&mut findings, more);
    findings
}

/// Looks at the parts of a request.
fn check_content(
    state: &DetectionState,
    context: &RequestContext,
    enriched: &EnrichedRequestContext,
    normalized: &NormalizedRequest,
    headers: &Headers,
) -> (r: Vec<Finding>)
    requires
        enriched.request.deep_view() == context.deep_view(),
        normalized.deep_view() == normalization::normalized_of(
            *context,
            *headers,
            detection::limits_of(*state.config),
        ),
    ensures
        r.deep_view() == content_findings(*state.config, *state.policy, *context, *headers),
{
    let mut findings = AuthDetector.detect(state, enriched, normalized, headers);
    let more = MethodDetector.detect(state, enriched, normalized, headers);
    types::extend_findings(&mut findings, more);
    let more = PathDetector.detect(state, enriched, normalized, headers);
    types::extend_findings(&mut findings, more);
    let more = HeaderDetector.detect(state, enriched, normalized, headers);
    types::extend_findings(&mut findings, more);
    let more = BodyDetector.detect(state, enriched, normalized, headers);
    types::extend_findings(&mut findings, more);
    findings
}

/// Looks at who asks for what.
fn check_usage(
    state: &DetectionState,
    context: &RequestContext,
    enriched: &EnrichedRequestContext,
    normalized: &NormalizedRequest,
    headers: &Headers,
) -> (r: Vec<Finding>)
    requires
        validation::enriched_from(
            *state.config,
            *context,
            *headers,
            enriched.learned_route_hits,
            *enriched,
        ),
        normalized.deep_view() == normalization::normalized_of(
            *context,
            *headers,
            detection::limits_of(*state.config),
        ),
    ensures
        r.deep_view() == usage_findings(*state.config, *state.policy, *context, *headers),
{
    let mut findings = JwtSecurityDetector.detect(state, enriched, normalized, headers);
    let more = ObjectAbuseDetector.detect(state, enriched, normalized, headers);
    types::extend_findings(&mut findings, more);
    let more = ResourceAbuseDetector.detect(state, enriched, normalized, headers);
    types::extend_findings(&mut findings, more);
    findings
}

/// Compares the body of a request with what was learned, and learns from it.
fn check_learned(
    config: &AppConfig,
    policy: &LivePolicyState,
    schemas: &mut SchemaMemory,
    context: &RequestContext,
    normalized: &NormalizedRequest,
    headers: &Headers,
) -> (r: Vec<Finding>)
    requires
        normalized.deep_view() == normalization::normalized_of(
            *context,
            *headers,
            detection::limits_of(*config),
        ),
    ensures
        r.deep_view() == learned_findings(
            *config,
            *policy,
            old(schemas).deep_view(),
            *context,
            *headers,
        ),
        final(schemas).deep_view() == learned_after(
            *config,
            old(schemas).deep_view(),
            *context,
            *headers,
        ),
{
    if !config.discovery.enabled {
        return detectors::no_findings();
    }
    let method = text::to_ascii_uppercase(context.method.as_str());
    let route = routes::security_route(context.path.as_str());
    let key = text::cat3(method.as_str(), ":", route.as_str());
    let body: Option<&str> = match &context.body_preview {
        Some(b) => Some(b.as_str()),
        None => None,
    };
    let content_type: Option<&str> = match &normalized.content_type {
        Some(t) => Some(t.as_str()),
        None => None,
    };
    assert(body.deep_view() == context.body_preview.deep_view());
    assert(content_type.deep_view() == normalized.content_type.deep_view());
    let mode = types::resolve_rule_mode(policy, context.path.as_str(), "UZ-API-SCHEMA-000");
    schema_learning::learn_and_detect_json_schema(
        schemas,
        key.as_str(),
        body,
        content_type,
        &config.discovery,
        mode,
    )
}

/// Inspects a request: counts its route, runs every check and learns from its body.
pub fn inspect_request(
    config: &AppConfig,
    policy: &LivePolicyState,
    memory: &mut RouteMemory,
    schemas: &mut SchemaMemory,
    context: &RequestContext,
    headers: &Headers,
    now: Timestamp,
) -> (r: Vec<Finding>)
    ensures
        r.deep_view() == dedupe::first_by_key(
            request_findings(
                *config,
                *policy,
                known_after(*config, old(memory).deep_view(), *context, now),
                inventory::hits_after(
                    old(memory).deep_view(),
                    context.method@,
                    routes::route_of(context.path@),
                ),
                old(schemas).deep_view(),
                *context,
                *headers,
            ),
            by_finding_key(),
        ),
        final(memory).deep_view() == known_after(*config, old(memory).deep_view(), *context, now),
        final(schemas).deep_view() == learned_after(
            *config,
            old(schemas).deep_view(),
            *context,
            *headers,
        ),
{
    let enriched = validation::enrich_request(config, memory, context, headers, now);
    let normalized = normalization::normalize_request(
        context,
        headers,
        detection::normalization_limits(config),
    );
    let state = DetectionState { config, policy, memory: &*memory };
    let mut findings = check_route(&state, context, &enriched, &normalized, headers);
    let more = check_content(&state, context, &enriched, &normalized, headers);
    types::extend_findings(&mut findings, more);
    let more = check_usage(&state, context, &enriched, &normalized, headers);
    types::extend_findings(&mut findings, more);
    let more = check_learned(config, policy, schemas, context, &normalized, headers);
    types::extend_findings(&mut findings, more);
    dedupe_findings(findings)
}

/// No rule is reported twice for one place, and every rule and place that was found is reported.
pub proof fn law_findings_reported_once(
    config: AppConfig,
    policy: LivePolicyState,
    known: Seq<LearnedRouteView>,
    hits: u64,
    schemas: Seq<(Seq<char>, LearnedJsonSchemaView)>,
    request: RequestContext,
    h: Headers,
)
    ensures
        ({
            let found = request_findings(config, policy, known, hits, schemas, request, h);
            let reported = dedupe::first_by_key(found, by_finding_key());
            &&& dedupe::distinct_keys(reported, by_finding_key())
            &&& forall|k: Seq<char>|
                dedupe::has_key(reported, by_finding_key(), k) == dedupe::has_key(
                    found,
                    by_finding_key(),
                    k,
                )
        }),
{
    dedupe::law_first_by_key(
        request_findings(config, policy, known, hits, schemas, request, h),
        by_finding_key(),
    );
}

/// Signs of debug output in a response. The text is in lower case.
pub open spec fn leaks_debug_output(lower: Seq<char>) -> bool {
    text::has_part(lower, "traceback"@) || text::has_part(lower, "stack trace"@)
        || text::has_part(lower, "exception:"@)
}

/// Signs of tokens in a response. The text is in lower case.
pub open spec fn exposes_tokens(lower: Seq<char>) -> bool {
    text::has_part(lower, "access_token"@) || text::has_part(lower, "refresh_token"@)
}

/// Whether a response is declared as JSON.
pub open spec fn declares_json(h: Headers) -> bool {
    match headers::field_text(h, "content-type"@) {
        Some(v) => text::has_part(text::lower_of(v), "application/json"@),
        None => false,
    }
}

/// The findings about a response, given its body as JSON where that could be read.
pub open spec fn response_findings(
    config: AppConfig,
    policy: LivePolicyState,
    path: Seq<char>,
    h: Headers,
    body: Seq<char>,
    parsed: Option<JsonNodeView>,
) -> Seq<FindingView> {
    if !config.response_security.enabled {
        Seq::empty()
    } else {
        let lower = text::lower_of(body);
        let s1 = detection::push_if(
            Seq::empty(),
            leaks_debug_output(lower),
            detectors::ruled(
                policy,
                path,
                "response.debug_leak"@,
                AttackClass::ResponseLeak,
                Severity::High,
                950_000,
                "debug or exception material detected in upstream response"@,
                "response.body"@,
                text::truncate_of(body, 200),
            ),
        );
        let s2 = detection::push_if(
            s1,
            exposes_tokens(lower),
            detectors::ruled(
                policy,
                path,
                "response.token_exposure"@,
                AttackClass::ResponseLeak,
                Severity::Critical,
                960_000,
                "token-like material detected in upstream response"@,
                "response.body"@,
                text::truncate_of(body, 200),
            ),
        );
        let count = json::capped(json::field_count_of(parsed->0));
        detection::push_if(
            s2,
            declares_json(h) && parsed is Some && count > config.response_security.max_json_fields,
            detectors::ruled(
                policy,
                path,
                "response.oversharing"@,
                AttackClass::ResponseLeak,
                Severity::Medium,
                750_000,
                "response JSON field count "@ + text::decimal_of(count)
                    + " exceeds configured threshold "@ + text::decimal_of(
                    config.response_security.max_json_fields as nat,
                ),
                "response.body"@,
                "json_field_count="@ + text::decimal_of(count),
            ),
        )
    }
}

pub fn is_declared_json(headers: &Headers) -> (r: bool)
    ensures
        r == declares_json(*headers),
{
    match headers.get("content-type") {
        Some(v) => {
            let lower = text::to_ascii_lowercase(v);
            text::contains(lower.as_str(), "application/json")
        },
        None => false,
    }
}

/// Checks a response whose body was read as JSON where it could be.
pub fn check_response(
    config: &AppConfig,
    policy: &LivePolicyState,
    path: &str,
    headers: &Headers,
    body: &str,
    parsed: &Option<JsonNode>,
) -> (r: Vec<Finding>)
    ensures
        r.deep_view() == response_findings(
            *config,
            *policy,
            path@,
            *headers,
            body@,
            parsed.deep_view(),
        ),
{
    let mut findings = detectors::no_findings();
    if !config.response_security.enabled {
        return findings;
    }
    let lower = text::to_ascii_lowercase(body);
    let preview = text::truncate(body, 200);
    if text::contains(lower.as_str(), "traceback") || text::contains(lower.as_str(), "stack trace")
        || text::contains(lower.as_str(), "exception:") {
        detectors::report(
            &mut findings,
            policy,
            path,
            "response.debug_leak",
            AttackClass::ResponseLeak,
            Severity::High,
            950_000,
            "debug or exception material detected in upstream response",
            "response.body",
            preview.as_str(),
        );
    }
    if text::contains(lower.as_str(), "access_token") || text::contains(
        lower.as_str(),
        "refresh_token",
    ) {
        detectors::report(
            &mut findings,
            policy,
            path,
            "response.token_exposure",
            AttackClass::ResponseLeak,
            Severity::Critical,
            960_000,
            "token-like material detected in upstream response",
            "response.body",
            preview.as_str(),
        );
    }
    if is_declared_json(headers) {
        if let Some(node) = parsed {
            let count: usize = json::json_field_count(node);
            let max: usize = config.response_security.max_json_fields;
            if count > max {
                let shown = text::decimal(count as u128);
                let limit = text::decimal(max as u128);
                let message = text::cat4(
                    "response JSON field count ",
                    shown.as_str(),
                    " exceeds configured threshold ",
                    limit.as_str(),
                );
                let evidence = text::cat2("json_field_count=", shown.as_str());
                detectors::report(
                    &mut findings,
                    policy,
                    path,
                    "response.oversharing",
                    AttackClass::ResponseLeak,
                    Severity::Medium,
                    750_000,
                    message.as_str(),
                    "response.body",
                    evidence.as_str(),
                );
            }
        }
    }
    findings
}

/// Inspects the start of a response.
pub fn inspect_response(
    config: &AppConfig,
    policy: &LivePolicyState,
    context: &RequestContext,
    response_headers: &Headers,
    response_body_preview: &str,
) -> (r: Vec<Finding>)
    ensures
        r.deep_view() == response_findings(
            *config,
            *policy,
            context.path@,
            *response_headers,
            response_body_preview@,
            outside::json_parsed(utf8::encode_utf8(response_body_preview@)),
        ),
{
    let parsed = if is_declared_json(response_headers) {
        outside::parse_json(response_body_preview.as_bytes())
    } else {
        None
    };
    check_response(
        config,
        policy,
        context.path.as_str(),
        response_headers,
        response_body_preview,
        &parsed,
    )
}

/// A switched-off response inspection finds nothing.
pub proof fn law_quiet_when_off(
    config: AppConfig,
    policy: LivePolicyState,
    path: Seq<char>,
    h: Headers,
    body: Seq<char>,
    parsed: Option<JsonNodeView>,
)
    requires
        !config.response_security.enabled,
    ensures
        response_findings(config, policy, path, h, body, parsed).len() == 0,
{
}

} // verus!
