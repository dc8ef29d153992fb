//! Inspection of bearer tokens.

use crate::config::AppConfig;
use crate::detection;
use crate::detection::detectors;
use crate::detection::detectors::{DetectionState, Detector, JwtSecurityDetector};
use crate::detection::normalization::NormalizedRequest;
use crate::headers;
use crate::headers::Headers;
use crate::identity;
use crate::json;
use crate::json::{Json, JsonNode, JsonNodeView, JsonView};
use crate::text;
use crate::types::{
    AttackClass, EnrichedRequestContext, Finding, FindingView, LivePolicyState, Severity,
};
use vstd::prelude::*;

verus! {

/// A finding about a token.
pub open spec fn token_finding(
    policy: LivePolicyState,
    path: Seq<char>,
    rule_id: Seq<char>,
    severity: Severity,
    confidence: i64,
    message: Seq<char>,
    location: Seq<char>,
    value_preview: Seq<char>,
) -> FindingView {
    detectors::ruled(
        policy,
        path,
        rule_id,
        AttackClass::JwtAbuse,
        severity,
        confidence,
        message,
        location,
        value_preview,
    )
}

/// Whether the token says that it is not signed.
pub open spec fn is_unsigned(header: JsonNodeView) -> bool {
    match json::text_of(json::member_of(header, "alg"@)) {
        Some(alg) => text::lower_of(alg) == text::lower_of("none"@),
        None => false,
    }
}

/// The issuer that the claims name, empty where they name none.
pub open spec fn issuer_of(payload: JsonNodeView) -> Seq<char> {
    match json::text_of(json::member_of(payload, "iss"@)) {
        Some(v) => v,
        None => ""@,
    }
}

/// The texts among some values, in order.
pub open spec fn texts_of(items: Seq<JsonNodeView>) -> Seq<Seq<char>>
    decreases items.len(),
{
    if items.len() == 0 {
        Seq::empty()
    } else {
        let before = texts_of(items.drop_last());
        match json::text_of(Some(items.last())) {
            Some(v) => before.push(v),
            None => before,
        }
    }
}

/// Whether the claims are meant for an audience: the claim is the audience or lists it.
pub open spec fn is_for_audience(payload: JsonNodeView, expected: Seq<char>) -> bool {
    match json::member_of(payload, "aud"@) {
        Some(n) => match n.value {
            JsonView::Text(v) => v == expected,
            JsonView::Array(items) => texts_of(items).contains(expected),
            _ => false,
        },
        None => false,
    }
}

/// The scopes that the claims grant: those listed, else the words of the scope claim.
pub open spec fn scopes_of(payload: JsonNodeView) -> Seq<Seq<char>> {
    let listed = json::member_of(payload, "scopes"@);
    if listed is Some && listed->0.value is Array {
        texts_of(listed->0.value->Array_0)
    } else {
        match json::text_of(json::member_of(payload, "scope"@)) {
            Some(v) => text::words_of(v),
            None => Seq::empty(),
        }
    }
}

/// The names of `required` that `granted` lacks, each once.
pub open spec fn lacking(required: Seq<Seq<char>>, granted: Seq<Seq<char>>) -> Seq<Seq<char>>
    decreases required.len(),
{
    if required.len() == 0 {
        Seq::empty()
    } else {
        let before = lacking(required.drop_last(), granted);
        let name = required.last();
        if granted.contains(name) || before.contains(name) {
            before
        } else {
            before.push(name)
        }
    }
}

/// A name is lacking exactly if it is required and not granted, and it is reported once.
pub proof fn law_lacking(required: Seq<Seq<char>>, granted: Seq<Seq<char>>)
    ensures
        forall|name: Seq<char>| #[trigger]
            lacking(required, granted).contains(name) == (required.contains(name)
                && !granted.contains(name)),
        lacking(required, granted).no_duplicates(),
    decreases required.len(),
{
    if required.len() > 0 {
        let rest = required.drop_last();
        let last = required.last();
        law_lacking(rest, granted);
        let before = lacking(rest, granted);
        crate::store::lemma_push_contains(before, last);
        crate::store::lemma_push_contains(rest, last);
        assert(rest.push(last) =~= required);
        assert forall|name: Seq<char>| #[trigger]
            lacking(required, granted).contains(name) == (required.contains(name)
                && !granted.contains(name)) by {
            assert(before.contains(name) == (rest.contains(name) && !granted.contains(name)));
            assert(rest.push(last).contains(name) == (rest.contains(name) || name == last));
        }
    }
}

/// The findings about the claims of a token that could be read.
pub open spec fn claim_findings(
    config: AppConfig,
    policy: LivePolicyState,
    path: Seq<char>,
    required_scopes: Seq<Seq<char>>,
    header: JsonNodeView,
    payload: JsonNodeView,
) -> Seq<FindingView> {
    let s1 = detection::push_if(
        Seq::empty(),
        config.jwt.reject_alg_none && is_unsigned(header),
        token_finding(
            policy,
            path,
            "jwt.alg_none"@,
            Severity::Critical,
            990_000,
            "JWT uses forbidden alg=none"@,
            "jwt.header.alg"@,
            "none"@,
        ),
    );
    let s2 = detection::push_if(
        s1,
        config.jwt.expected_issuer is Some && issuer_of(payload)
            != config.jwt.expected_issuer->0@,
        token_finding(
            policy,
            path,
            "jwt.invalid_issuer"@,
            Severity::High,
            920_000,
            "JWT issuer does not match configured issuer"@,
            "jwt.claims.iss"@,
            issuer_of(payload),
        ),
    );
    let s3 = detection::push_if(
        s2,
        config.jwt.expected_audience is Some && !is_for_audience(
            payload,
            config.jwt.expected_audience->0@,
        ),
        token_finding(
            policy,
            path,
            "jwt.invalid_audience"@,
            Severity::High,
            900_000,
            "JWT audience does not match configured audience"@,
            "jwt.claims.aud"@,
            config.jwt.expected_audience->0@,
        ),
    );
    let missing = lacking(required_scopes, scopes_of(payload));
    detection::push_if(
        s3,
        missing.len() > 0,
        token_finding(
            policy,
            path,
            "jwt.missing_scope"@,
            Severity::High,
            900_000,
            "JWT missing required scopes: "@ + text::join_of(missing, ","@),
            "jwt.claims.scope"@,
            text::join_of(missing, ","@),
        ),
    )
}

/// The findings about a token with three segments, of which the first two were read as JSON where
/// they could be.
pub open spec fn segment_findings(
    config: AppConfig,
    policy: LivePolicyState,
    path: Seq<char>,
    required_scopes: Seq<Seq<char>>,
    parts: Seq<Seq<char>>,
    header: Option<JsonNodeView>,
    payload: Option<JsonNodeView>,
) -> Seq<FindingView> {
    match header {
        None => seq![
            token_finding(
                policy,
                path,
                "jwt.invalid_encoding"@,
                Severity::High,
                960_000,
                "JWT header segment is not valid base64url JSON"@,
                "jwt.header"@,
                text::truncate_of(parts[0], 80),
            ),
        ],
        Some(header) => match payload {
            None => seq![
                token_finding(
                    policy,
                    path,
                    "jwt.invalid_encoding"@,
                    Severity::High,
                    960_000,
                    "JWT payload segment is not valid base64url JSON"@,
                    "jwt.payload"@,
                    text::truncate_of(parts[1], 80),
                ),
            ],
            Some(payload) => claim_findings(
                config,
                policy,
                path,
                required_scopes,
                header,
                payload,
            ),
        },
    }
}

/// The finding about a token that has not three segments.
pub open spec fn structure_findings(policy: LivePolicyState, path: Seq<char>) -> Seq<FindingView> {
    seq![
        token_finding(
            policy,
            path,
            "jwt.invalid_structure"@,
            Severity::High,
            950_000,
            "JWT does not have 3 segments"@,
            "request.headers.authorization"@,
            "bearer token"@,
        ),
    ]
}

/// The bearer token of a request.
pub open spec fn bearer_of(h: Headers) -> Option<Seq<char>> {
    match headers::field_text(h, "authorization"@) {
        Some(value) => text::stripped_prefix(value, "Bearer "@),
        None => None,
    }
}

/// The findings about the bearer token of a request.
pub open spec fn token_findings(
    config: AppConfig,
    policy: LivePolicyState,
    path: Seq<char>,
    required_scopes: Seq<Seq<char>>,
    h: Headers,
) -> Seq<FindingView> {
    if !config.jwt.enabled {
        Seq::empty()
    } else {
        match bearer_of(h) {
            None => Seq::empty(),
            Some(token) => {
                let parts = text::split_of(token, '.');
                if parts.len() != 3 {
                    structure_findings(policy, path)
                } else {
                    segment_findings(
                        config,
                        policy,
                        path,
                        required_scopes,
                        parts,
                        identity::decoded_segment(parts[0]),
                        identity::decoded_segment(parts[1]),
                    )
                }
            },
        }
    }
}

fn report_token(
    findings: &mut Vec<Finding>,
    policy: &LivePolicyState,
    path: &str,
    rule_id: &str,
    severity: Severity,
    confidence: i64,
    message: &str,
    location: &str,
    value_preview: &str,
)
    ensures
        final(findings).deep_view() == old(findings).deep_view().push(
            token_finding(
                *policy,
                path@,
                rule_id@,
                severity,
                confidence,
                message@,
                location@,
                value_preview@,
            ),
        ),
{
    detectors::report(
        findings,
        policy,
        path,
        rule_id,
        AttackClass::JwtAbuse,
        severity,
        confidence,
        message,
        location,
        value_preview,
    );
}

/// A list of one finding about a token.
fn one_token_finding(
    policy: &LivePolicyState,
    path: &str,
    rule_id: &str,
    severity: Severity,
    confidence: i64,
    message: &str,
    location: &str,
    value_preview: &str,
) -> (r: Vec<Finding>)
    ensures
        r.deep_view() == seq![
            token_finding(
                *policy,
                path@,
                rule_id@,
                severity,
                confidence,
                message@,
                location@,
                value_preview@,
            ),
        ],
{
    let mut findings = detectors::no_findings();
    report_token(
        &mut findings,
        policy,
        path,
        rule_id,
        severity,
        confidence,
        message,
        location,
        value_preview,
    );
    assert(findings.deep_view() =~= seq![findings.deep_view()[0]]);
    findings
}

/// The texts among some values.
fn collect_texts(items: &Vec<JsonNode>) -> (r: Vec<String>)
    ensures
        r.deep_view() == texts_of(json::items_view(items@)),
{
    let ghost all = json::items_view(items@);
    let mut out: Vec<String> = Vec::new();
    let mut i: usize = 0;
    assert(all.take(0) =~= Seq::empty());
    assert(out.deep_view() =~= Seq::empty());
    while i < items.len()
        invariant
            i <= items@.len(),
            all == json::items_view(items@),
            out.deep_view() == texts_of(all.take(i as int)),
        decreases items@.len() - i,
    {
        assert(all.take(i + 1).drop_last() =~= all.take(i as int));
        assert(all.take(i + 1).last() == items@[i as int].deep_view());
        if let Some(v) = items[i].as_str() {
            text::push_text(&mut out, v.to_string());
        }
        i = i + 1;
    }
    assert(all.take(i as int) =~= all);
    out
}

fn matches_audience(payload: &JsonNode, expected: &str) -> (r: bool)
    ensures
        r == is_for_audience(payload.deep_view(), expected@),
{
    match payload.get("aud") {
        Some(n) => {
            proof {
                json::lemma_node_view(*n);
            }
            match &n.value {
                Json::Text(v) => text::same(v.as_str(), expected),
                Json::Array(items) => {
                    let texts = collect_texts(items);
                    text::list_contains(&texts, expected)
                },
                _ => false,
            }
        },
        None => false,
    }
}

fn granted_scopes(payload: &JsonNode) -> (r: Vec<String>)
    ensures
        r.deep_view() == scopes_of(payload.deep_view()),
{
    if let Some(n) = payload.get("scopes") {
        proof {
            json::lemma_node_view(*n);
        }
        if let Json::Array(items) = &n.value {
            return collect_texts(items);
        }
    }
    match json::member_str(payload, "scope") {
        Some(v) => text::words(v),
        None => {
            let none: Vec<String> = Vec::new();
            assert(none.deep_view() =~= Seq::empty());
            none
        },
    }
}

/// The required scopes that are not granted.
pub fn missing_scopes(required: &Vec<String>, granted: &Vec<String>) -> (r: Vec<String>)
    ensures
        r.deep_view() == lacking(required.deep_view(), granted.deep_view()),
{
    let ghost all = required.deep_view();
    let mut out: Vec<String> = Vec::new();
    let mut i: usize = 0;
    assert(all.take(0) =~= Seq::empty());
    assert(out.deep_view() =~= Seq::empty());
    while i < required.len()
        invariant
            i <= required@.len(),
            all == required.deep_view(),
            out.deep_view() == lacking(all.take(i as int), granted.deep_view()),
        decreases required@.len() - i,
    {
        assert(all.take(i + 1).drop_last() =~= all.take(i as int));
        assert(all.take(i + 1).last() == required@[i as int]@);
        let name = required[i].as_str();
        if !text::list_contains(granted, name) && !text::list_contains(&out, name) {
            text::push_text(&mut out, name.to_string());
        }
        i = i + 1;
    }
    assert(all.take(i as int) =~= all);
    out
}

/// Checks the claims of a token that could be read.
pub fn check_claims(
    config: &AppConfig,
    policy: &LivePolicyState,
    path: &str,
    required_scopes: &Vec<String>,
    header: &JsonNode,
    payload: &JsonNode,
) -> (r: Vec<Finding>)
    ensures
        r.deep_view() == claim_findings(
            *config,
            *policy,
            path@,
            required_scopes.deep_view(),
            header.deep_view(),
            payload.deep_view(),
        ),
{
    let mut findings = detectors::no_findings();
    let unsigned = match json::member_str(header, "alg") {
        Some(alg) => text::eq_ignore_ascii_case(alg, "none"),
        None => false,
    };
    if config.jwt.reject_alg_none && unsigned {
        report_token(
            &mut findings,
            policy,
            path,
            "jwt.alg_none",
            Severity::Critical,
            990_000,
            "JWT uses forbidden alg=none",
            "jwt.header.alg",
            "none",
        );
    }
    if let Some(expected) = &config.jwt.expected_issuer {
        let actual = match json::member_str(payload, "iss") {
            Some(v) => v,
            None => "",
        };
        if !text::same(actual, expected.as_str()) {
            report_token(
                &mut findings,
                policy,
                path,
                "jwt.invalid_issuer",
                Severity::High,
                920_000,
                "JWT issuer does not match configured issuer",
                "jwt.claims.iss",
                actual,
            );
        }
    }
    if let Some(expected) = &config.jwt.expected_audience {
        if !matches_audience(payload, expected.as_str()) {
            report_token(
                &mut findings,
                policy,
                path,
                "jwt.invalid_audience",
                Severity::High,
                900_000,
                "JWT audience does not match configured audience",
                "jwt.claims.aud",
                expected.as_str(),
            );
        }
    }
    let granted = granted_scopes(payload);
    let missing = missing_scopes(required_scopes, &granted);
    if missing.len() > 0 {
        let shown = text::join(&missing, ",");
        let message = text::cat2("JWT missing required scopes: ", shown.as_str());
        report_token(
            &mut findings,
            policy,
            path,
            "jwt.missing_scope",
            Severity::High,
            900_000,
            message.as_str(),
            "jwt.claims.scope",
            shown.as_str(),
        );
    }
    findings
}

/// Checks a token with three segments, of which the first two were read as JSON where they could
/// be.
pub fn check_segments(
    config: &AppConfig,
    policy: &LivePolicyState,
    path: &str,
    required_scopes: &Vec<String>,
    parts: &Vec<String>,
    header: Option<JsonNode>,
    payload: Option<JsonNode>,
) -> (r: Vec<Finding>)
    requires
        parts@.len() == 3,
    ensures
        r.deep_view() == segment_findings(
            *config,
            *policy,
            path@,
            required_scopes.deep_view(),
            parts.deep_view(),
            header.deep_view(),
            payload.deep_view(),
        ),
{
    assert(parts.deep_view()[0] == parts@[0]@);
    assert(parts.deep_view()[1] == parts@[1]@);
    match header {
        None => {
            let shown = text::truncate(parts[0].as_str(), 80);
            one_token_finding(
                policy,
                path,
                "jwt.invalid_encoding",
                Severity::High,
                960_000,
                "JWT header segment is not valid base64url JSON",
                "jwt.header",
                shown.as_str(),
            )
        },
        Some(header) => match payload {
            None => {
                let shown = text::truncate(parts[1].as_str(), 80);
                one_token_finding(
                    policy,
                    path,
                    "jwt.invalid_encoding",
                    Severity::High,
                    960_000,
                    "JWT payload segment is not valid base64url JSON",
                    "jwt.payload",
                    shown.as_str(),
                )
            },
            Some(payload) => check_claims(
                config,
                policy,
                path,
                required_scopes,
                &header,
                &payload,
            ),
        },
    }
}

impl Detector for JwtSecurityDetector {
    open spec fn findings_of(
        &self,
        state: DetectionState,
        enriched: EnrichedRequestContext,
        normalized: NormalizedRequest,
        h: Headers,
    ) -> Seq<FindingView> {
        token_findings(
            *state.config,
            *state.policy,
            enriched.request.path@,
            enriched.required_scopes.deep_view(),
            h,
        )
    }

    fn detect(
        &self,
        state: &DetectionState,
        enriched: &EnrichedRequestContext,
        normalized: &NormalizedRequest,
        headers: &Headers,
    ) -> (r: Vec<Finding>) {
        let path = enriched.request.path.as_str();
        if !state.config.jwt.enabled {
            return detectors::no_findings();
        }
        let token = match headers.get("authorization") {
            Some(value) => text::strip_prefix(value, "Bearer "),
            None => None,
        };
        match token {
            None => detectors::no_findings(),
            Some(token) => {
                let parts = text::split(token.as_str(), '.');
                if parts.len() != 3 {
                    return one_token_finding(
                        state.policy,
                        path,
                        "jwt.invalid_structure",
                        Severity::High,
                        950_000,
                        "JWT does not have 3 segments",
                        "request.headers.authorization",
                        "bearer token",
                    );
                }
                assert(parts.deep_view()[0] == parts@[0]@);
                assert(parts.deep_view()[1] == parts@[1]@);
                let header = identity::decode_jwt_segment(parts[0].as_str());
                let payload = identity::decode_jwt_segment(parts[1].as_str());
                check_segments(
                    state.config,
                    state.policy,
                    path,
                    &enriched.required_scopes,
                    &parts,
                    header,
                    payload,
                )
            },
        }
    }
}

/// A token that leaves out a required scope is reported, whatever else it says.
pub proof fn law_missing_scope_is_reported(
    config: AppConfig,
    policy: LivePolicyState,
    path: Seq<char>,
    required_scopes: Seq<Seq<char>>,
    header: JsonNodeView,
    payload: JsonNodeView,
    scope: Seq<char>,
)
    requires
        required_scopes.contains(scope),
        !scopes_of(payload).contains(scope),
    ensures
        claim_findings(config, policy, path, required_scopes, header, payload).len() > 0,
        claim_findings(
            config,
            policy,
            path,
            required_scopes,
            header,
            payload,
        ).last().rule_id == "jwt.missing_scope"@,
{
    law_lacking(required_scopes, scopes_of(payload));
    assert(lacking(required_scopes, scopes_of(payload)).contains(scope));
}

/// A token that claims to be unsigned is reported where such tokens are to be rejected.
pub proof fn law_unsigned_token_is_reported(
    config: AppConfig,
    policy: LivePolicyState,
    path: Seq<char>,
    required_scopes: Seq<Seq<char>>,
    header: JsonNodeView,
    payload: JsonNodeView,
)
    requires
        config.jwt.reject_alg_none,
        is_unsigned(header),
    ensures
        claim_findings(config, policy, path, required_scopes, header, payload).len() > 0,
        claim_findings(
            config,
            policy,
            path,
            required_scopes,
            header,
            payload,
        )[0].rule_id == "jwt.alg_none"@,
{
}

} // verus!
