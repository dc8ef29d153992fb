//! The detectors that look at one request.

use crate::config::AppConfig;
use crate::detection;
use crate::detection::normalization::{NormalizedRequest, NormalizedRequestView};
use crate::headers;
use crate::headers::{Header, Headers};
use crate::inventory;
use crate::inventory::RouteMemory;
use crate::text;
use crate::types;
use crate::types::{
    AttackClass, AuthStatus, EnrichedRequestContext, Finding, FindingView, LivePolicyState,
    ParsedBodyFieldView, RequestContext, Severity,
};
use vstd::prelude::*;

verus! {

/// What detectors see besides the request.
pub struct DetectionState<'a> {
    pub config: &'a AppConfig,
    pub policy: &'a LivePolicyState,
    pub memory: &'a RouteMemory,
}

/// Something that looks at a request and reports what it finds.
pub trait Detector {
    /// The findings about a request.
    spec fn findings_of(
        &self,
        state: DetectionState,
        enriched: EnrichedRequestContext,
        normalized: NormalizedRequest,
        h: Headers,
    ) -> Seq<FindingView>;

    fn detect(
        &self,
        state: &DetectionState,
        enriched: &EnrichedRequestContext,
        normalized: &NormalizedRequest,
        headers: &Headers,
    ) -> (r: Vec<Finding>)
        ensures
            r.deep_view() == self.findings_of(*state, *enriched, *normalized, *headers),
    ;
}

#[derive(Debug, Clone, Copy)]
pub struct AuthDetector;

#[derive(Debug, Clone, Copy)]
pub struct MethodDetector;

#[derive(Debug, Clone, Copy)]
pub struct PathDetector;

#[derive(Debug, Clone, Copy)]
pub struct BodyDetector;

#[derive(Debug, Clone, Copy)]
pub struct HeaderDetector;

#[derive(Debug, Clone, Copy)]
pub struct JwtSecurityDetector;

#[derive(Debug, Clone, Copy)]
pub struct ObjectAbuseDetector;

#[derive(Debug, Clone, Copy)]
pub struct ResourceAbuseDetector;

#[derive(Debug, Clone, Copy)]
pub struct ApiInventoryDetector;

/// A finding whose mode the policy sets.
pub open spec fn ruled(
    policy: LivePolicyState,
    path: Seq<char>,
    rule_id: Seq<char>,
    class: AttackClass,
    severity: Severity,
    confidence: i64,
    message: Seq<char>,
    location: Seq<char>,
    value_preview: Seq<char>,
) -> FindingView {
    types::finding_of(
        rule_id,
        class,
        severity,
        confidence,
        message,
        location,
        value_preview,
        types::rule_mode_of(policy, path, rule_id),
    )
}

/// Reports a finding whose mode the policy sets.
pub(crate) fn report(
    findings: &mut Vec<Finding>,
    policy: &LivePolicyState,
    path: &str,
    rule_id: &str,
    class: AttackClass,
    severity: Severity,
    confidence: i64,
    message: &str,
    location: &str,
    value_preview: &str,
)
    ensures
        final(findings).deep_view() == old(findings).deep_view().push(
            ruled(
                *policy,
                path@,
                rule_id@,
                class,
                severity,
                confidence,
                message@,
                location@,
                value_preview@,
            ),
        ),
{
    let mode = types::resolve_rule_mode(policy, path, rule_id);
    types::push_finding(
        findings,
        types::make_finding(
            rule_id,
            class,
            severity,
            confidence,
            message,
            location,
            value_preview,
            mode,
        ),
    );
}

pub(crate) fn no_findings() -> (r: Vec<Finding>)
    ensures
        r.deep_view() == Seq::<FindingView>::empty(),
{
    let none: Vec<Finding> = Vec::new();
    assert(none.deep_view() =~= Seq::empty());
    none
}

/// A list of one finding is what reporting it makes of an empty list.
proof fn lemma_only(f: FindingView)
    ensures
        Seq::<FindingView>::empty().push(f) == seq![f],
{
    assert(Seq::<FindingView>::empty().push(f) =~= seq![f]);
}

/// The findings about missing and unknown credentials.
pub open spec fn auth_findings(
    config: AppConfig,
    policy: LivePolicyState,
    path: Seq<char>,
    status: AuthStatus,
) -> Seq<FindingView> {
    match status {
        AuthStatus::Missing => seq![
            ruled(
                policy,
                path,
                "auth.missing_api_key"@,
                AttackClass::BrokenAuthentication,
                Severity::High,
                990_000,
                "missing API key for protected path"@,
                "request.headers"@,
                config.auth.header_name@,
            ),
        ],
        AuthStatus::Invalid => seq![
            ruled(
                policy,
                path,
                "auth.invalid_api_key"@,
                AttackClass::BrokenAuthentication,
                Severity::High,
                990_000,
                "invalid API key for protected path"@,
                "request.headers"@,
                config.auth.header_name@,
            ),
        ],
        AuthStatus::NotRequired | AuthStatus::Satisfied => Seq::empty(),
    }
}

impl Detector for AuthDetector {
    open spec fn findings_of(
        &self,
        state: DetectionState,
        enriched: EnrichedRequestContext,
        normalized: NormalizedRequest,
        h: Headers,
    ) -> Seq<FindingView> {
        auth_findings(
            *state.config,
            *state.policy,
            enriched.request.path@,
            enriched.request.auth_status,
        )
    }

    fn detect(
        &self,
        state: &DetectionState,
        enriched: &EnrichedRequestContext,
        normalized: &NormalizedRequest,
        headers: &Headers,
    ) -> (r: Vec<Finding>) {
        let mut findings = no_findings();
        let path = enriched.request.path.as_str();
        match enriched.request.auth_status {
            AuthStatus::Missing => {
                report(
                    &mut findings,
                    state.policy,
                    path,
                    "auth.missing_api_key",
                    AttackClass::BrokenAuthentication,
                    Severity::High,
                    990_000,
                    "missing API key for protected path",
                    "request.headers",
                    state.config.auth.header_name.as_str(),
                );
                proof {
                    lemma_only(findings.deep_view()[0]);
                }
            },
            AuthStatus::Invalid => {
                report(
                    &mut findings,
                    state.policy,
                    path,
                    "auth.invalid_api_key",
                    AttackClass::BrokenAuthentication,
                    Severity::High,
                    990_000,
                    "invalid API key for protected path",
                    "request.headers",
                    state.config.auth.header_name.as_str(),
                );
                proof {
                    lemma_only(findings.deep_view()[0]);
                }
            },
            AuthStatus::NotRequired | AuthStatus::Satisfied => {},
        }
        findings
    }
}

/// Whether a method is among some methods, without regard to case.
pub open spec fn is_listed_method(methods: Seq<Seq<char>>, method: Seq<char>) -> bool {
    exists|i: int|
        0 <= i < methods.len() && text::lower_of(#[trigger] methods[i]) == text::lower_of(method)
}

fn method_listed(methods: &Vec<String>, method: &str) -> (r: bool)
    ensures
        r == is_listed_method(methods.deep_view(), method@),
{
    let ghost all = methods.deep_view();
    let mut i: usize = 0;
    while i < methods.len()
        invariant
            i <= methods@.len(),
            all == methods.deep_view(),
            forall|j: int|
                0 <= j < i ==> text::lower_of(#[trigger] all[j]) != text::lower_of(method@),
        decreases methods@.len() - i,
    {
        assert(all[i as int] == methods@[i as int]@);
        if text::eq_ignore_ascii_case(methods[i].as_str(), method) {
            return true;
        }
        i = i + 1;
    }
    false
}

/// The finding about a method that is not allowed.
pub open spec fn method_findings(
    config: AppConfig,
    policy: LivePolicyState,
    path: Seq<char>,
    method: Seq<char>,
) -> Seq<FindingView> {
    if is_listed_method(config.security.blocked_methods.deep_view(), method) {
        seq![
            ruled(
                policy,
                path,
                "method.disallowed"@,
                AttackClass::MethodAbuse,
                Severity::High,
                980_000,
                "disallowed HTTP method detected: "@ + method,
                "request.method"@,
                method,
            ),
        ]
    } else {
        Seq::empty()
    }
}

impl Detector for MethodDetector {
    open spec fn findings_of(
        &self,
        state: DetectionState,
        enriched: EnrichedRequestContext,
        normalized: NormalizedRequest,
        h: Headers,
    ) -> Seq<FindingView> {
        method_findings(
            *state.config,
            *state.policy,
            enriched.request.path@,
            enriched.request.method@,
        )
    }

    fn detect(
        &self,
        state: &DetectionState,
        enriched: &EnrichedRequestContext,
        normalized: &NormalizedRequest,
        headers: &Headers,
    ) -> (r: Vec<Finding>) {
        let mut findings = no_findings();
        let method = enriched.request.method.as_str();
        if method_listed(&state.config.security.blocked_methods, method) {
            let message = text::cat2("disallowed HTTP method detected: ", method);
            report(
                &mut findings,
                state.policy,
                enriched.request.path.as_str(),
                "method.disallowed",
                AttackClass::MethodAbuse,
                Severity::High,
                980_000,
                message.as_str(),
                "request.method",
                method,
            );
            proof {
                lemma_only(findings.deep_view()[0]);
            }
        }
        findings
    }
}

/// A parameter as it is inspected.
pub open spec fn shown_pair(p: (Seq<char>, Seq<char>)) -> Seq<char> {
    p.0 + "="@ + p.1
}

/// What is inspected of the path and, where that is asked for, the query.
pub open spec fn path_candidates(config: AppConfig, n: NormalizedRequestView) -> Seq<Seq<char>> {
    if config.security.inspect_query_string {
        seq![n.path] + Seq::new(n.query_pairs.len(), |i: int| shown_pair(n.query_pairs[i]))
    } else {
        seq![n.path]
    }
}

impl Detector for PathDetector {
    open spec fn findings_of(
        &self,
        state: DetectionState,
        enriched: EnrichedRequestContext,
        normalized: NormalizedRequest,
        h: Headers,
    ) -> Seq<FindingView> {
        detection::candidate_findings(
            *state.config,
            *state.policy,
            enriched.request.path@,
            "request.path_or_query"@,
            path_candidates(*state.config, normalized.deep_view()),
        )
    }

    fn detect(
        &self,
        state: &DetectionState,
        enriched: &EnrichedRequestContext,
        normalized: &NormalizedRequest,
        headers: &Headers,
    ) -> (r: Vec<Finding>) {
        let mut candidates: Vec<String> = Vec::new();
        candidates.push(normalized.path.clone());
        assert(candidates.deep_view() =~= seq![normalized.path@]);
        if state.config.security.inspect_query_string {
            let pairs = &normalized.query_pairs;
            let ghost shown = Seq::new(
                pairs.deep_view().len(),
                |i: int| shown_pair(pairs.deep_view()[i]),
            );
            let mut i: usize = 0;
            assert(candidates.deep_view() =~= seq![normalized.path@] + shown.take(0));
            while i < pairs.len()
                invariant
                    i <= pairs@.len(),
                    shown == Seq::new(
                        pairs.deep_view().len(),
                        |i: int| shown_pair(pairs.deep_view()[i]),
                    ),
                    candidates.deep_view() == seq![normalized.path@] + shown.take(i as int),
                decreases pairs@.len() - i,
            {
                let pair = text::cat3(pairs[i].0.as_str(), "=", pairs[i].1.as_str());
                assert(pairs.deep_view()[i as int] == (pairs@[i as int].0@, pairs@[i as int].1@));
                assert(pair@ == shown[i as int]);
                text::push_text(&mut candidates, pair);
                i = i + 1;
                assert(candidates.deep_view() =~= seq![normalized.path@] + shown.take(i as int));
            }
            assert(shown.take(i as int) =~= shown);
        }
        detection::inspect_payload_candidates(
            state.config,
            state.policy,
            enriched.request.path.as_str(),
            "request.path_or_query",
            &candidates,
        )
    }
}

/// Whether an inspected value is part of the body.
pub open spec fn is_body_place(place: Seq<char>) -> bool {
    text::has_prefix(place, "body."@) || place == "request.body"@
}

/// What is inspected of the body.
pub open spec fn body_candidates(values: Seq<(Seq<char>, Seq<char>)>) -> Seq<Seq<char>>
    decreases values.len(),
{
    if values.len() == 0 {
        Seq::empty()
    } else {
        let before = body_candidates(values.drop_last());
        if is_body_place(values.last().0) {
            before.push(shown_pair(values.last()))
        } else {
            before
        }
    }
}

impl Detector for BodyDetector {
    open spec fn findings_of(
        &self,
        state: DetectionState,
        enriched: EnrichedRequestContext,
        normalized: NormalizedRequest,
        h: Headers,
    ) -> Seq<FindingView> {
        if state.config.security.inspect_body {
            detection::candidate_findings(
                *state.config,
                *state.policy,
                enriched.request.path@,
                "request.body"@,
                body_candidates(normalized.inspection_values.deep_view()),
            )
        } else {
            Seq::empty()
        }
    }

    fn detect(
        &self,
        state: &DetectionState,
        enriched: &EnrichedRequestContext,
        normalized: &NormalizedRequest,
        headers: &Headers,
    ) -> (r: Vec<Finding>) {
        if !state.config.security.inspect_body {
            return no_findings();
        }
        let values = &normalized.inspection_values;
        let ghost all = values.deep_view();
        let mut candidates: Vec<String> = Vec::new();
        let mut i: usize = 0;
        assert(all.take(0) =~= Seq::empty());
        assert(candidates.deep_view() =~= Seq::empty());
        while i < values.len()
            invariant
                i <= values@.len(),
                all == values.deep_view(),
                candidates.deep_view() == body_candidates(all.take(i as int)),
            decreases values@.len() - i,
        {
            assert(all.take(i + 1).drop_last() =~= all.take(i as int));
            assert(all.take(i + 1).last() == (values@[i as int].0@, values@[i as int].1@));
            let place = values[i].0.as_str();
            if text::starts_with(place, "body.") || text::same(place, "request.body") {
                text::push_text(&mut candidates, text::cat3(place, "=", values[i].1.as_str()));
            }
            i = i + 1;
        }
        assert(all.take(i as int) =~= all);
        detection::inspect_payload_candidates(
            state.config,
            state.policy,
            enriched.request.path.as_str(),
            "request.body",
            &candidates,
        )
    }
}

/// The findings about one header field.
pub open spec fn field_findings(
    policy: LivePolicyState,
    path: Seq<char>,
    h: Headers,
    name: Seq<char>,
    value: Seq<char>,
) -> Seq<FindingView> {
    let lower = text::lower_of(value);
    let place = "header."@ + name;
    let preview = text::truncate_of(value, 200);
    let s1 = detection::push_if(
        Seq::empty(),
        lower.contains('\r') || lower.contains('\n'),
        ruled(
            policy,
            path,
            "header.crlf"@,
            AttackClass::HeaderInjection,
            Severity::Critical,
            970_000,
            "CRLF/header injection markers in header "@ + name,
            place,
            preview,
        ),
    );
    detection::push_if(
        s1,
        name == "transfer-encoding"@ && text::has_part(lower, "chunked"@) && headers::has_field(
            h,
            "content-length"@,
        ),
        ruled(
            policy,
            path,
            "smuggling.cl_te"@,
            AttackClass::RequestSmuggling,
            Severity::High,
            720_000,
            "possible CL/TE ambiguity detected"@,
            place,
            preview,
        ),
    )
}

/// The findings about header fields that are text, in order.
pub open spec fn fields_findings(
    policy: LivePolicyState,
    path: Seq<char>,
    h: Headers,
    fields: Seq<Header>,
) -> Seq<FindingView>
    decreases fields.len(),
{
    if fields.len() == 0 {
        Seq::empty()
    } else {
        let before = fields_findings(policy, path, h, fields.drop_last());
        match fields.last().value {
            Some(value) => before + field_findings(
                policy,
                path,
                h,
                fields.last().name@,
                value@,
            ),
            None => before,
        }
    }
}

/// Whether a method with which a body is not expected came with one.
pub open spec fn has_unexpected_body(method: Seq<char>, body: Option<Seq<char>>) -> bool {
    (method == "GET"@ || method == "HEAD"@) && body is Some && body->0.len() > 0
}

/// The findings about the header fields of a request.
pub open spec fn header_findings(
    policy: LivePolicyState,
    path: Seq<char>,
    h: Headers,
    method: Seq<char>,
    body: Option<Seq<char>>,
) -> Seq<FindingView> {
    let s1 = fields_findings(policy, path, h, h.entries@);
    let host = headers::field_text(h, "host"@);
    let s2 = detection::push_if(
        s1,
        host is Some && detection::is_malformed_host(host->0),
        ruled(
            policy,
            path,
            "UZ-PROTO-002"@,
            AttackClass::RequestSmuggling,
            Severity::Medium,
            700_000,
            "malformed Host header pattern observed"@,
            "request.headers.host"@,
            "malformed_host"@,
        ),
    );
    detection::push_if(
        s2,
        has_unexpected_body(method, body),
        ruled(
            policy,
            path,
            "UZ-PROTO-003"@,
            AttackClass::RequestSmuggling,
            Severity::Low,
            620_000,
            "unexpected request body for safe HTTP method"@,
            "request.method"@,
            method,
        ),
    )
}

fn check_header(
    policy: &LivePolicyState,
    path: &str,
    headers: &Headers,
    name: &str,
    value: &str,
) -> (r: Vec<Finding>)
    ensures
        r.deep_view() == field_findings(*policy, path@, *headers, name@, value@),
{
    let mut findings = no_findings();
    let lower = text::to_ascii_lowercase(value);
    let place = text::cat2("header.", name);
    let preview = text::truncate(value, 200);
    if text::contains_char(lower.as_str(), '\r') || text::contains_char(lower.as_str(), '\n') {
        let message = text::cat2("CRLF/header injection markers in header ", name);
        report(
            &mut findings,
            policy,
            path,
            "header.crlf",
            AttackClass::HeaderInjection,
            Severity::Critical,
            970_000,
            message.as_str(),
            place.as_str(),
            preview.as_str(),
        );
    }
    if text::same(name, "transfer-encoding") && text::contains(lower.as_str(), "chunked")
        && headers.contains_key("content-length") {
        report(
            &mut findings,
            policy,
            path,
            "smuggling.cl_te",
            AttackClass::RequestSmuggling,
            Severity::High,
            720_000,
            "possible CL/TE ambiguity detected",
            place.as_str(),
            preview.as_str(),
        );
    }
    findings
}

impl Detector for HeaderDetector {
    open spec fn findings_of(
        &self,
        state: DetectionState,
        enriched: EnrichedRequestContext,
        normalized: NormalizedRequest,
        h: Headers,
    ) -> Seq<FindingView> {
        if state.config.security.inspect_headers {
            header_findings(
                *state.policy,
                enriched.request.path@,
                h,
                normalized.method@,
                enriched.request.body_preview.deep_view(),
            )
        } else {
            Seq::empty()
        }
    }

    fn detect(
        &self,
        state: &DetectionState,
        enriched: &EnrichedRequestContext,
        normalized: &NormalizedRequest,
        headers: &Headers,
    ) -> (r: Vec<Finding>) {
        let mut findings = no_findings();
        if !state.config.security.inspect_headers {
            return findings;
        }
        let path = enriched.request.path.as_str();
        let policy = state.policy;
        let ghost all = headers.entries@;
        let mut i: usize = 0;
        assert(all.take(0) =~= Seq::empty());
        while i < headers.entries.len()
            invariant
                i <= headers.entries@.len(),
                all == headers.entries@,
                findings.deep_view() == fields_findings(
                    *policy,
                    path@,
                    *headers,
                    all.take(i as int),
                ),
            decreases headers.entries@.len() - i,
        {
            assert(all.take(i + 1).drop_last() =~= all.take(i as int));
            let entry = &headers.entries[i];
            if let Some(value) = &entry.value {
                let more = check_header(
                    policy,
                    path,
                    headers,
                    entry.name.as_str(),
                    value.as_str(),
                );
                types::extend_findings(&mut findings, more);
            }
            i = i + 1;
        }
        assert(all.take(i as int) =~= all);
        let bad_host = match headers.get("host") {
            Some(host) => detection::malformed_host(host),
            None => false,
        };
        if bad_host {
            report(
                &mut findings,
                policy,
                path,
                "UZ-PROTO-002",
                AttackClass::RequestSmuggling,
                Severity::Medium,
                700_000,
                "malformed Host header pattern observed",
                "request.headers.host",
                "malformed_host",
            );
        }
        let method = normalized.method.as_str();
        let filled = match &enriched.request.body_preview {
            Some(body) => !body.as_str().is_empty(),
            None => false,
        };
        if (text::same(method, "GET") || text::same(method, "HEAD")) && filled {
            report(
                &mut findings,
                policy,
                path,
                "UZ-PROTO-003",
                AttackClass::RequestSmuggling,
                Severity::Low,
                620_000,
                "unexpected request body for safe HTTP method",
                "request.method",
                method,
            );
        }
        findings
    }
}

/// The findings about a request that names many objects or another tenant's.
pub open spec fn object_findings(
    policy: LivePolicyState,
    path: Seq<char>,
    object_ids: Seq<Seq<char>>,
    tenant_id: Option<Seq<char>>,
    tenant_hint: Option<Seq<char>>,
) -> Seq<FindingView> {
    let ids = text::distinct_of(object_ids);
    let s1 = detection::push_if(
        Seq::empty(),
        ids.len() >= 3,
        ruled(
            policy,
            path,
            "object.multiple_ids"@,
            AttackClass::ObjectEnumeration,
            Severity::Medium,
            680_000,
            "multiple object identifiers present in one request"@,
            "request.object_ids"@,
            text::join_of(ids, ","@),
        ),
    );
    detection::push_if(
        s1,
        tenant_id is Some && tenant_hint is Some && tenant_id->0 != tenant_hint->0,
        ruled(
            policy,
            path,
            "tenant.cross_boundary"@,
            AttackClass::TenantBoundaryViolation,
            Severity::Critical,
            940_000,
            "possible cross-tenant resource access attempt"@,
            "request.tenant_context"@,
            "auth_tenant="@ + tenant_id->0 + ", resource_tenant="@ + tenant_hint->0,
        ),
    )
}

/// Whether a body field names a tenant. The name is in lower case.
pub open spec fn names_tenant(key: Seq<char>) -> bool {
    key == "tenant_id"@ || key == "tenant"@ || text::has_suffix(key, "tenant_id"@)
}

/// The value of the first body field that names a tenant.
pub open spec fn tenant_field(fields: Seq<ParsedBodyFieldView>) -> Option<Seq<char>>
    decreases fields.len(),
{
    if fields.len() == 0 {
        None
    } else if names_tenant(text::lower_of(fields[0].key)) {
        Some(fields[0].value_preview)
    } else {
        tenant_field(fields.drop_first())
    }
}

/// The first path segment that names a tenant.
pub open spec fn tenant_segment(parts: Seq<Seq<char>>) -> Option<Seq<char>>
    decreases parts.len(),
{
    if parts.len() == 0 {
        None
    } else if text::has_prefix(parts[0], "tenant_"@) {
        Some(parts[0])
    } else {
        tenant_segment(parts.drop_first())
    }
}

/// The tenant whose resource a request is about, as far as the request says.
pub open spec fn tenant_hint_of(request: RequestContext) -> Option<Seq<char>> {
    match tenant_field(request.parsed_body_fields.deep_view()) {
        Some(v) => Some(v),
        None => tenant_segment(text::split_of(request.path@, '/')),
    }
}

pub fn extract_tenant_hint(request: &RequestContext) -> (r: Option<String>)
    ensures
        r.deep_view() == tenant_hint_of(*request),
{
    let fields = &request.parsed_body_fields;
    let ghost all = fields.deep_view();
    let mut i: usize = 0;
    assert(all.skip(0) =~= all);
    while i < fields.len()
        invariant
            i <= fields@.len(),
            all == fields.deep_view(),
            all == request.parsed_body_fields.deep_view(),
            tenant_field(all) == tenant_field(all.skip(i as int)),
        decreases fields@.len() - i,
    {
        assert(all.skip(i as int)[0] == fields@[i as int].deep_view());
        let key = text::to_ascii_lowercase(fields[i].key.as_str());
        if text::same(key.as_str(), "tenant_id") || text::same(key.as_str(), "tenant")
            || text::ends_with(key.as_str(), "tenant_id") {
            return Some(fields[i].value_preview.clone());
        }
        assert(all.skip(i as int).drop_first() =~= all.skip(i + 1));
        i = i + 1;
    }
    assert(all.skip(i as int).len() == 0);
    let parts = text::split(request.path.as_str(), '/');
    let ghost segs = parts.deep_view();
    let mut j: usize = 0;
    assert(segs.skip(0) =~= segs);
    while j < parts.len()
        invariant
            j <= parts@.len(),
            segs == parts.deep_view(),
            segs == text::split_of(request.path@, '/'),
            tenant_field(request.parsed_body_fields.deep_view()) is None,
            tenant_segment(segs) == tenant_segment(segs.skip(j as int)),
        decreases parts@.len() - j,
    {
        assert(segs.skip(j as int)[0] == parts@[j as int]@);
        if text::starts_with(parts[j].as_str(), "tenant_") {
            return Some(parts[j].clone());
        }
        assert(segs.skip(j as int).drop_first() =~= segs.skip(j + 1));
        j = j + 1;
    }
    assert(segs.skip(j as int).len() == 0);
    None
}

impl Detector for ObjectAbuseDetector {
    open spec fn findings_of(
        &self,
        state: DetectionState,
        enriched: EnrichedRequestContext,
        normalized: NormalizedRequest,
        h: Headers,
    ) -> Seq<FindingView> {
        object_findings(
            *state.policy,
            enriched.request.path@,
            enriched.object_id_candidates.deep_view(),
            enriched.tenant_id.deep_view(),
            tenant_hint_of(enriched.request),
        )
    }

    fn detect(
        &self,
        state: &DetectionState,
        enriched: &EnrichedRequestContext,
        normalized: &NormalizedRequest,
        headers: &Headers,
    ) -> (r: Vec<Finding>) {
        let mut findings = no_findings();
        let path = enriched.request.path.as_str();
        let ids = text::distinct(&enriched.object_id_candidates);
        if ids.len() >= 3 {
            let shown = text::join(&ids, ",");
            report(
                &mut findings,
                state.policy,
                path,
                "object.multiple_ids",
                AttackClass::ObjectEnumeration,
                Severity::Medium,
                680_000,
                "multiple object identifiers present in one request",
                "request.object_ids",
                shown.as_str(),
            );
        }
        if let Some(tenant) = &enriched.tenant_id {
            if let Some(hint) = extract_tenant_hint(&enriched.request) {
                if !text::same(tenant.as_str(), hint.as_str()) {
                    let shown = text::cat4(
                        "auth_tenant=",
                        tenant.as_str(),
                        ", resource_tenant=",
                        hint.as_str(),
                    );
                    report(
                        &mut findings,
                        state.policy,
                        path,
                        "tenant.cross_boundary",
                        AttackClass::TenantBoundaryViolation,
                        Severity::Critical,
                        940_000,
                        "possible cross-tenant resource access attempt",
                        "request.tenant_context",
                        shown.as_str(),
                    );
                }
            }
        }
        findings
    }
}

/// Whether a parameter asks for more than a thousand items at once.
pub open spec fn asks_too_much(p: (Seq<char>, Seq<char>)) -> bool {
    &&& p.0 == "limit"@ || p.0 == "page_size"@ || p.0 == "per_page"@ || p.0 == "take"@
    &&& match text::parsed_uint(p.1, usize::MAX as nat) {
        Some(n) => n > 1_000,
        None => false,
    }
}

/// The findings about parameters that ask for too much.
pub open spec fn pagination_findings(
    policy: LivePolicyState,
    path: Seq<char>,
    pairs: Seq<(Seq<char>, Seq<char>)>,
) -> Seq<FindingView>
    decreases pairs.len(),
{
    if pairs.len() == 0 {
        Seq::empty()
    } else {
        detection::push_if(
            pagination_findings(policy, path, pairs.drop_last()),
            asks_too_much(pairs.last()),
            ruled(
                policy,
                path,
                "UZ-API-RESOURCE-003"@,
                AttackClass::ResourceAbuse,
                Severity::Medium,
                800_000,
                "abusive pagination parameter observed"@,
                "query."@ + pairs.last().0,
                pairs.last().1,
            ),
        )
    }
}

/// The findings about requests that ask for too many resources.
pub open spec fn resource_findings(
    config: AppConfig,
    policy: LivePolicyState,
    path: Seq<char>,
    n: NormalizedRequestView,
    content_length: Option<Seq<char>>,
) -> Seq<FindingView> {
    let s1 = detection::push_if(
        Seq::empty(),
        n.query_param_count > config.discovery.max_query_params,
        ruled(
            policy,
            path,
            "UZ-API-RESOURCE-001"@,
            AttackClass::ResourceAbuse,
            Severity::Medium,
            840_000,
            "large query parameter fan-out observed"@,
            "request.query"@,
            "query_params="@ + text::decimal_of(n.query_param_count as nat),
        ),
    );
    let size = match content_length {
        Some(v) => text::parsed_uint(v, usize::MAX as nat),
        None => None,
    };
    let s2 = detection::push_if(
        s1,
        size is Some && size->0 > config.proxy.max_body_bytes,
        ruled(
            policy,
            path,
            "UZ-API-RESOURCE-002"@,
            AttackClass::ResourceAbuse,
            Severity::High,
            960_000,
            "request body size exceeds configured proxy limit"@,
            "request.headers.content-length"@,
            text::decimal_of(size->0),
        ),
    );
    s2 + pagination_findings(policy, path, n.query_pairs)
}

impl Detector for ResourceAbuseDetector {
    open spec fn findings_of(
        &self,
        state: DetectionState,
        enriched: EnrichedRequestContext,
        normalized: NormalizedRequest,
        h: Headers,
    ) -> Seq<FindingView> {
        resource_findings(
            *state.config,
            *state.policy,
            enriched.request.path@,
            normalized.deep_view(),
            headers::field_text(h, "content-length"@),
        )
    }

    fn detect(
        &self,
        state: &DetectionState,
        enriched: &EnrichedRequestContext,
        normalized: &NormalizedRequest,
        headers: &Headers,
    ) -> (r: Vec<Finding>) {
        let mut findings = no_findings();
        let path = enriched.request.path.as_str();
        if normalized.query_param_count > state.config.discovery.max_query_params {
            let count = text::decimal(normalized.query_param_count as u128);
            let shown = text::cat2("query_params=", count.as_str());
            report(
                &mut findings,
                state.policy,
                path,
                "UZ-API-RESOURCE-001",
                AttackClass::ResourceAbuse,
                Severity::Medium,
                840_000,
                "large query parameter fan-out observed",
                "request.query",
                shown.as_str(),
            );
        }
        let size: Option<u64> = match headers.get("content-length") {
            Some(v) => text::parse_uint(v, usize::MAX as u64),
            None => None,
        };
        if let Some(n) = size {
            if n > state.config.proxy.max_body_bytes as u64 {
                let shown = text::decimal(n as u128);
                report(
                    &mut findings,
                    state.policy,
                    path,
                    "UZ-API-RESOURCE-002",
                    AttackClass::ResourceAbuse,
                    Severity::High,
                    960_000,
                    "request body size exceeds configured proxy limit",
                    "request.headers.content-length",
                    shown.as_str(),
                );
            }
        }
        let ghost start = findings.deep_view();
        let pairs = &normalized.query_pairs;
        let ghost all = pairs.deep_view();
        let mut i: usize = 0;
        assert(all.take(0) =~= Seq::empty());
        assert(start =~= start + pagination_findings(*state.policy, path@, all.take(0)));
        while i < pairs.len()
            invariant
                i <= pairs@.len(),
                all == pairs.deep_view(),
                findings.deep_view() == start + pagination_findings(
                    *state.policy,
                    path@,
                    all.take(i as int),
                ),
            decreases pairs@.len() - i,
        {
            assert(all.take(i + 1).drop_last() =~= all.take(i as int));
            assert(all.take(i + 1).last() == (pairs@[i as int].0@, pairs@[i as int].1@));
            let key = pairs[i].0.as_str();
            let value = pairs[i].1.as_str();
            if text::same(key, "limit") || text::same(key, "page_size") || text::same(
                key,
                "per_page",
            ) || text::same(key, "take") {
                let many = match text::parse_uint(value, usize::MAX as u64) {
                    Some(n) => n > 1_000,
                    None => false,
                };
                if many {
                    let place = text::cat2("query.", key);
                    report(
                        &mut findings,
                        state.policy,
                        path,
                        "UZ-API-RESOURCE-003",
                        AttackClass::ResourceAbuse,
                        Severity::Medium,
                        800_000,
                        "abusive pagination parameter observed",
                        place.as_str(),
                        value,
                    );
                }
            }
            assert(findings.deep_view() =~= start + pagination_findings(
                *state.policy,
                path@,
                all.take(i + 1),
            ));
            i = i + 1;
        }
        assert(all.take(i as int) =~= all);
        findings
    }
}

/// The findings about routes that are new or should not be used any more.
pub open spec fn inventory_findings(
    config: AppConfig,
    policy: LivePolicyState,
    path: Seq<char>,
    normalized_path: Seq<char>,
    hits: u64,
    deprecated: bool,
) -> Seq<FindingView> {
    if !config.discovery.enabled {
        Seq::empty()
    } else {
        let s1 = detection::push_if(
            Seq::empty(),
            hits == 1,
            ruled(
                policy,
                path,
                "UZ-API-INV-001"@,
                AttackClass::ApiInventory,
                Severity::Low,
                880_000,
                "new API endpoint observed"@,
                "request.route"@,
                normalized_path,
            ),
        );
        detection::push_if(
            s1,
            deprecated,
            ruled(
                policy,
                path,
                "UZ-API-INV-004"@,
                AttackClass::ApiInventory,
                Severity::Medium,
                920_000,
                "deprecated API endpoint received traffic"@,
                "request.route"@,
                normalized_path,
            ),
        )
    }
}

impl Detector for ApiInventoryDetector {
    open spec fn findings_of(
        &self,
        state: DetectionState,
        enriched: EnrichedRequestContext,
        normalized: NormalizedRequest,
        h: Headers,
    ) -> Seq<FindingView> {
        inventory_findings(
            *state.config,
            *state.policy,
            enriched.request.path@,
            enriched.normalized_path@,
            enriched.learned_route_hits,
            inventory::deprecated_in(
                state.memory.deep_view(),
                enriched.request.method@,
                enriched.normalized_path@,
            ),
        )
    }

    fn detect(
        &self,
        state: &DetectionState,
        enriched: &EnrichedRequestContext,
        normalized: &NormalizedRequest,
        headers: &Headers,
    ) -> (r: Vec<Finding>) {
        let mut findings = no_findings();
        if !state.config.discovery.enabled {
            return findings;
        }
        let path = enriched.request.path.as_str();
        let route = enriched.normalized_path.as_str();
        if enriched.learned_route_hits == 1 {
            report(
                &mut findings,
                state.policy,
                path,
                "UZ-API-INV-001",
                AttackClass::ApiInventory,
                Severity::Low,
                880_000,
                "new API endpoint observed",
                "request.route",
                route,
            );
        }
        if inventory::is_deprecated_route(
            state.memory,
            enriched.request.method.as_str(),
            route,
        ) {
            report(
                &mut findings,
                state.policy,
                path,
                "UZ-API-INV-004",
                AttackClass::ApiInventory,
                Severity::Medium,
                920_000,
                "deprecated API endpoint received traffic",
                "request.route",
                route,
            );
        }
        findings
    }
}

} // verus!
