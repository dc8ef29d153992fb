//! Decisions on requests from what the detectors have found.

use crate::config::{AppConfig, DetectorException, PolicyMode, RuleMode};
use crate::dedupe;
use crate::mitigation;
use crate::mitigation::TemporaryMitigationStore;
use crate::text;
use crate::types;
use crate::types::{
    AttackClass, DecisionOutcome, DecisionOutcomeView, Finding, FindingEvidenceView, FindingView,
    LivePolicyState, MitigationAction, Recommendation, RecommendationView, RequestContext,
    SecurityDecision, SecurityDecisionView, Severity, Timestamp,
};
use vstd::prelude::*;

verus! {

/// The weight of a severity in the risk of a request, in halves.
pub open spec fn half_weight(severity: Severity) -> int {
    match severity {
        Severity::Low => 2,
        Severity::Medium => 4,
        Severity::High => 7,
        Severity::Critical => 10,
    }
}

/// What one finding adds to the risk: its severity's weight times two for schema and token
/// problems, times two and a half for object abuse and behaviour, and nothing for other classes.
pub open spec fn finding_risk(class: AttackClass, severity: Severity) -> int {
    match class {
        AttackClass::SchemaViolation
        | AttackClass::JwtAbuse
        | AttackClass::BrokenAuthentication => half_weight(severity) * 1_000_000,
        AttackClass::ObjectEnumeration
        | AttackClass::TenantBoundaryViolation
        | AttackClass::BehaviorAnomaly
        | AttackClass::BruteForce
        | AttackClass::RateLimitExceeded => half_weight(severity) * 1_250_000,
        _ => 0,
    }
}

pub open spec fn findings_risk(findings: Seq<FindingView>) -> int
    decreases findings.len(),
{
    if findings.len() == 0 {
        0
    } else {
        findings_risk(findings.drop_last()) + finding_risk(
            findings.last().attack_class,
            findings.last().severity,
        )
    }
}

/// What a source's suspicious score adds to the risk: one and a half for each point above zero.
pub open spec fn reputation_risk(score: i32) -> int {
    if score > 0 {
        score * 1_500_000
    } else {
        0
    }
}

/// The risk of a request in fixed-point units.
pub open spec fn risk_of(findings: Seq<FindingView>, reputation_score: i32) -> int {
    findings_risk(findings) + reputation_risk(reputation_score)
}

/// The risk is never negative and grows with each finding and with the suspicious score.
pub proof fn law_risk_monotone(findings: Seq<FindingView>, more: FindingView, low: i32, high: i32)
    requires
        low <= high,
    ensures
        0 <= risk_of(findings, low) <= risk_of(findings, high),
        risk_of(findings, low) <= risk_of(findings.push(more), low),
    decreases findings.len(),
{
    lemma_findings_risk_range(findings);
    assert(findings.push(more).drop_last() =~= findings);
}

proof fn lemma_findings_risk_range(findings: Seq<FindingView>)
    ensures
        0 <= findings_risk(findings) <= findings.len() * 12_500_000,
    decreases findings.len(),
{
    if findings.len() > 0 {
        lemma_findings_risk_range(findings.drop_last());
    }
}

pub fn calculate_risk(findings: &Vec<Finding>, reputation_score: i32) -> (r: i128)
    ensures
        r == risk_of(findings.deep_view(), reputation_score),
        r >= 0,
{
    let ghost all = findings.deep_view();
    let mut risk: i128 = 0;
    let mut i: usize = 0;
    assert(all.take(0) =~= Seq::empty());
    while i < findings.len()
        invariant
            i <= findings@.len(),
            all == findings.deep_view(),
            risk == findings_risk(all.take(i as int)),
            0 <= risk <= i * 12_500_000,
        decreases findings@.len() - i,
    {
        let weight: i128 = match findings[i].severity {
            Severity::Low => 2,
            Severity::Medium => 4,
            Severity::High => 7,
            Severity::Critical => 10,
        };
        let factor: i128 = match findings[i].attack_class {
            AttackClass::SchemaViolation
            | AttackClass::JwtAbuse
            | AttackClass::BrokenAuthentication => 1_000_000,
            AttackClass::ObjectEnumeration
            | AttackClass::TenantBoundaryViolation
            | AttackClass::BehaviorAnomaly
            | AttackClass::BruteForce
            | AttackClass::RateLimitExceeded => 1_250_000,
            _ => 0,
        };
        assert(all.take(i + 1).drop_last() =~= all.take(i as int));
        assert(weight * factor == finding_risk(
            all[i as int].attack_class,
            all[i as int].severity,
        ));
        risk = risk + weight * factor;
        i = i + 1;
    }
    assert(all.take(i as int) =~= all);
    let reputation: i128 = if reputation_score > 0 {
        reputation_score as i128 * 1_500_000
    } else {
        0
    };
    risk + reputation
}

/// The mode in which a rule acts under a policy mode.
pub open spec fn effective_mode(policy_mode: PolicyMode, rule_mode: RuleMode) -> RuleMode {
    match policy_mode {
        PolicyMode::Monitor => RuleMode::DetectOnly,
        PolicyMode::Balanced => rule_mode,
        PolicyMode::Strict => match rule_mode {
            RuleMode::DetectOnly => RuleMode::Recommend,
            _ => rule_mode,
        },
    }
}

pub fn effective_rule_mode(policy_mode: PolicyMode, rule_mode: RuleMode) -> (r: RuleMode)
    ensures
        r == effective_mode(policy_mode, rule_mode),
{
    match policy_mode {
        PolicyMode::Monitor => RuleMode::DetectOnly,
        PolicyMode::Balanced => rule_mode,
        PolicyMode::Strict => match rule_mode {
            RuleMode::DetectOnly => RuleMode::Recommend,
            _ => rule_mode,
        },
    }
}

/// Whether a place of evidence is, or ends in, the given parameter. Both are in lower case.
pub open spec fn names_parameter(location: Seq<char>, parameter: Seq<char>) -> bool {
    ||| location == parameter
    ||| text::has_suffix(location, "."@ + parameter)
    ||| text::has_suffix(location, "["@ + parameter + "]"@)
}

/// Whether some evidence stands in the given parameter, without regard to case.
pub open spec fn matches_parameter(evidence: Seq<FindingEvidenceView>, parameter: Seq<char>) -> bool {
    let p = text::lower_of(text::trim_of(parameter));
    p.len() > 0 && exists|i: int|
        0 <= i < evidence.len() && names_parameter(
            text::lower_of(#[trigger] evidence[i].location),
            p,
        )
}

pub fn finding_matches_parameter(finding: &Finding, parameter: &str) -> (r: bool)
    ensures
        r == matches_parameter(finding.deep_view().evidence, parameter@),
{
    let trimmed = text::trim(parameter);
    let p = text::to_ascii_lowercase(trimmed.as_str());
    if p.as_str().is_empty() {
        return false;
    }
    let dotted = text::cat2(".", p.as_str());
    let bracketed = text::cat3("[", p.as_str(), "]");
    let ghost all = finding.deep_view().evidence;
    let mut i: usize = 0;
    while i < finding.evidence.len()
        invariant
            i <= finding.evidence@.len(),
            all == finding.deep_view().evidence,
            p@ == text::lower_of(text::trim_of(parameter@)),
            p@.len() > 0,
            dotted@ == "."@ + p@,
            bracketed@ == "["@ + p@ + "]"@,
            forall|j: int|
                0 <= j < i ==> !names_parameter(
                    text::lower_of(#[trigger] all[j].location),
                    p@,
                ),
        decreases finding.evidence@.len() - i,
    {
        let location = text::to_ascii_lowercase(finding.evidence[i].location.as_str());
        assert(location@ == text::lower_of(all[i as int].location));
        if text::same(location.as_str(), p.as_str()) || text::ends_with(
            location.as_str(),
            dotted.as_str(),
        ) || text::ends_with(location.as_str(), bracketed.as_str()) {
            return true;
        }
        i = i + 1;
    }
    false
}

/// Whether an exception says that a finding on a path is only to be recorded.
pub open spec fn exempts(e: DetectorException, f: FindingView, path: Seq<char>) -> bool {
    &&& e.detector_id@ == f.rule_id
    &&& (e.path_prefix is Some ==> text::has_prefix(path, e.path_prefix->0@))
    &&& (e.min_confidence is Some ==> f.confidence >= e.min_confidence->0)
    &&& (e.parameter is Some ==> matches_parameter(f.evidence, e.parameter->0@))
    &&& e.monitor_only
}

pub open spec fn exempted(
    exceptions: Seq<DetectorException>,
    f: FindingView,
    path: Seq<char>,
) -> bool {
    exists|i: int| 0 <= i < exceptions.len() && exempts(#[trigger] exceptions[i], f, path)
}

fn exception_applies(e: &DetectorException, f: &Finding, path: &str) -> (r: bool)
    ensures
        r == exempts(*e, f.deep_view(), path@),
{
    if !text::same(e.detector_id.as_str(), f.detector_id()) {
        return false;
    }
    if let Some(prefix) = &e.path_prefix {
        if !text::starts_with(path, prefix.as_str()) {
            return false;
        }
    }
    if let Some(minimum) = e.min_confidence {
        if f.confidence < minimum {
            return false;
        }
    }
    if let Some(parameter) = &e.parameter {
        if !finding_matches_parameter(f, parameter.as_str()) {
            return false;
        }
    }
    e.monitor_only
}

fn is_exempted(exceptions: &Vec<DetectorException>, f: &Finding, path: &str) -> (r: bool)
    ensures
        r == exempted(exceptions@, f.deep_view(), path@),
{
    let mut i: usize = 0;
    while i < exceptions.len()
        invariant
            i <= exceptions@.len(),
            forall|j: int|
                0 <= j < i ==> !exempts(#[trigger] exceptions@[j], f.deep_view(), path@),
        decreases exceptions@.len() - i,
    {
        if exception_applies(&exceptions[i], f, path) {
            return true;
        }
        i = i + 1;
    }
    false
}

/// The finding with the mode that the exceptions leave it.
pub open spec fn excepted(
    exceptions: Seq<DetectorException>,
    f: FindingView,
    path: Seq<char>,
) -> FindingView {
    if exempted(exceptions, f, path) {
        FindingView { mode: RuleMode::DetectOnly, ..f }
    } else {
        f
    }
}

pub open spec fn all_excepted(
    exceptions: Seq<DetectorException>,
    findings: Seq<FindingView>,
    path: Seq<char>,
) -> Seq<FindingView> {
    Seq::new(findings.len(), |i: int| excepted(exceptions, findings[i], path))
}

pub fn apply_detector_exceptions(
    exceptions: &Vec<DetectorException>,
    path: &str,
    findings: &Vec<Finding>,
) -> (r: Vec<Finding>)
    ensures
        r.deep_view() == all_excepted(exceptions@, findings.deep_view(), path@),
{
    let ghost all = all_excepted(exceptions@, findings.deep_view(), path@);
    let mut out: Vec<Finding> = Vec::new();
    let mut i: usize = 0;
    while i < findings.len()
        invariant
            i <= findings@.len(),
            all == all_excepted(exceptions@, findings.deep_view(), path@),
            out.deep_view() == all.take(i as int),
        decreases findings@.len() - i,
    {
        let mut finding = findings[i].clone();
        if is_exempted(exceptions, &findings[i], path) {
            finding.mode = RuleMode::DetectOnly;
        }
        assert(finding.deep_view() == all[i as int]);
        types::push_finding(&mut out, finding);
        i = i + 1;
        assert(out.deep_view() =~= all.take(i as int));
    }
    assert(all.take(i as int) =~= all);
    out
}

/// The smallest confidence and score with which a finding leads to a rejection.
pub open spec fn block_thresholds(config: AppConfig, policy_mode: PolicyMode) -> (int, int) {
    let c = config.security.min_block_confidence as int;
    let s = config.security.min_block_score as int;
    match policy_mode {
        PolicyMode::Strict => (
            if c - 150_000 > 550_000 {
                c - 150_000
            } else {
                550_000
            },
            if s - 15_000_000 > 35_000_000 {
                s - 15_000_000
            } else {
                35_000_000
            },
        ),
        _ => (c, s),
    }
}

/// Whether a finding is severe and sure enough to reject a request.
pub open spec fn blocking_confidence_met(
    config: AppConfig,
    policy_mode: PolicyMode,
    f: FindingView,
) -> bool {
    &&& policy_mode != PolicyMode::Monitor
    &&& f.severity == Severity::High || f.severity == Severity::Critical
    &&& f.confidence >= block_thresholds(config, policy_mode).0
    &&& types::score_of(f.severity, f.confidence) >= block_thresholds(config, policy_mode).1
}

pub fn is_blocking_confidence_met(
    config: &AppConfig,
    policy_mode: PolicyMode,
    finding: &Finding,
) -> (r: bool)
    ensures
        r == blocking_confidence_met(*config, policy_mode, finding.deep_view()),
{
    let confidence: i128 = config.security.min_block_confidence as i128;
    let score: i128 = config.security.min_block_score as i128;
    let (min_confidence, min_score) = match policy_mode {
        PolicyMode::Monitor => {
            return false;
        },
        PolicyMode::Balanced => (confidence, score),
        PolicyMode::Strict => {
            let c: i128 = if confidence - 150_000 > 550_000 {
                confidence - 150_000
            } else {
                550_000
            };
            let s: i128 = if score - 15_000_000 > 35_000_000 {
                score - 15_000_000
            } else {
                35_000_000
            };
            (c, s)
        },
    };
    let severe = match finding.severity {
        Severity::High | Severity::Critical => true,
        _ => false,
    };
    severe && finding.confidence as i128 >= min_confidence && finding.score() as i128 >= min_score
}

/// The risk from which on a request with a critical finding is rejected; there is none while
/// monitoring.
pub open spec fn risk_threshold(policy_mode: PolicyMode) -> Option<int> {
    match policy_mode {
        PolicyMode::Monitor => None,
        PolicyMode::Balanced => Some(20_000_000),
        PolicyMode::Strict => Some(12_500_000),
    }
}

pub fn blocking_risk_threshold(policy_mode: PolicyMode) -> (r: Option<i128>)
    ensures
        match r {
            Some(t) => risk_threshold(policy_mode) == Some(t as int),
            None => risk_threshold(policy_mode) is None,
        },
{
    match policy_mode {
        PolicyMode::Monitor => None,
        PolicyMode::Balanced => Some(20_000_000),
        PolicyMode::Strict => Some(12_500_000),
    }
}

/// A recommendation without parameters.
pub open spec fn advice(
    action_key: Seq<char>,
    title: Seq<char>,
    rationale: Seq<char>,
    risk: Seq<char>,
    rollback_hint: Seq<char>,
) -> RecommendationView {
    RecommendationView {
        action_key,
        title,
        rationale,
        risk,
        rollback_hint,
        parameters: Seq::empty(),
    }
}

fn advise(
    action_key: &str,
    title: &str,
    rationale: &str,
    risk: &str,
    rollback_hint: &str,
) -> (r: Recommendation)
    ensures
        r.deep_view() == advice(action_key@, title@, rationale@, risk@, rollback_hint@),
{
    let parameters: Vec<(String, String)> = Vec::new();
    assert(parameters.deep_view() =~= Seq::empty());
    Recommendation {
        action_key: action_key.to_string(),
        title: title.to_string(),
        rationale: rationale.to_string(),
        risk: risk.to_string(),
        rollback_hint: rollback_hint.to_string(),
        parameters,
    }
}

/// The recommendation for a class of attack.
pub open spec fn recommendation_for(class: AttackClass) -> RecommendationView {
    match class {
        AttackClass::SqlInjection => advice(
            "review_input_validation"@,
            "Review input validation and parameterization"@,
            "SQL injection indicators suggest unsafe query construction or weak validation."@,
            "Automatic permanent blocking can affect legitimate researchers or false positives."@,
            "Use temporary controls first, then tune rule scope."@,
        ),
        AttackClass::Xss => advice(
            "tighten_output_encoding"@,
            "Tighten output encoding and payload filtering"@,
            "XSS indicators suggest reflected or stored script injection attempts."@,
            "Aggressive generic filtering may overblock rich text workflows."@,
            "Scope filtering to affected routes and content types."@,
        ),
        AttackClass::CommandInjection => advice(
            "isolate_command_surfaces"@,
            "Review command execution surfaces"@,
            "Command execution patterns are high risk and should be isolated or removed."@,
            "Automatic response is usually safe, but root cause still requires manual review."@,
            "Restore route after validation hardening and test coverage."@,
        ),
        AttackClass::PathTraversal => advice(
            "restrict_file_path_resolution"@,
            "Restrict file path resolution"@,
            "Traversal markers suggest unsafe file access path handling."@,
            "Blocking is generally safe, but review file-serving routes carefully."@,
            "Restore route-level exceptions only where explicitly needed."@,
        ),
        AttackClass::HeaderInjection => advice(
            "reject_crlf_payloads"@,
            "Reject CRLF and header injection payloads"@,
            "Header injection can lead to response splitting and downstream abuse."@,
            "Low false-positive risk when evidence is strong."@,
            "Keep rule enabled unless a verified compatibility issue exists."@,
        ),
        AttackClass::RequestSmuggling => advice(
            "review_proxy_header_handling"@,
            "Review CL/TE and proxy header handling"@,
            "Smuggling-like signals often need edge and upstream policy review."@,
            "Automatic blocking can be noisy depending on deployment topology."@,
            "Prefer detect/recommend mode until validated in staging."@,
        ),
        AttackClass::Ssrf => advice(
            "enforce_egress_allowlist"@,
            "Enforce SSRF egress allowlist"@,
            "SSRF-style targets should be restricted by explicit outbound policy."@,
            "Automatic blocking can affect legitimate webhook and integration flows."@,
            "Roll back per-route after allowlist tuning."@,
        ),
        AttackClass::BrokenAuthentication
        | AttackClass::JwtAbuse
        | AttackClass::AuthAbuse => advice(
            "review_auth_policy"@,
            "Review auth policy for protected path"@,
            "Protected route was accessed without valid credentials or token constraints."@,
            "Automatic blocking is usually safe on admin or internal routes."@,
            "Adjust protected path configuration or token validation policy."@,
        ),
        AttackClass::BruteForce
        | AttackClass::RateLimitExceeded
        | AttackClass::BehaviorAnomaly
        | AttackClass::ResourceAbuse => advice(
            "enable_progressive_delay"@,
            "Enable progressive delay or stricter throttling"@,
            "Burst or anomalous activity suggests brute-force or abuse pressure."@,
            "May increase friction for legitimate heavy users behind shared IPs."@,
            "Use shorter TTLs and route-specific overrides."@,
        ),
        AttackClass::MethodAbuse => advice(
            "disable_unused_methods"@,
            "Disable unused HTTP methods"@,
            "Suspicious methods such as TRACE or CONNECT are rarely needed publicly."@,
            "Can affect rare tooling or diagnostics if not scoped."@,
            "Re-enable method only where explicitly needed."@,
        ),
        AttackClass::PayloadEvasion => advice(
            "increase_inspection_depth"@,
            "Increase inspection depth for evasive sources"@,
            "Encoding and mutation signals suggest bypass attempts."@,
            "Stricter normalization can raise false positives."@,
            "Reduce inspection depth after tuning signatures."@,
        ),
        AttackClass::MissingSecurityHeaders
        | AttackClass::SecurityMisconfiguration => advice(
            "add_security_headers"@,
            "Add security headers upstream"@,
            "Missing headers are a hardening issue, not necessarily an active exploit."@,
            "Some headers may affect browser behavior if added broadly."@,
            "Scope header policy to tested routes."@,
        ),
        AttackClass::SchemaViolation => advice(
            "tighten_api_schema"@,
            "Tighten API schema enforcement"@,
            "Schema drift or malformed requests suggest positive security gaps."@,
            "Blocking unknown routes too aggressively can break undocumented integrations."@,
            "Use detect mode first, then raise high-confidence routes to block."@,
        ),
        AttackClass::ObjectEnumeration
        | AttackClass::TenantBoundaryViolation => advice(
            "harden_object_authorization"@,
            "Harden object and tenant authorization"@,
            "Object or tenant-boundary abuse is one of the highest-impact API attack classes."@,
            "Route-level exceptions may be required for trusted service accounts."@,
            "Start with detect mode and validate route-object mapping before enforcement."@,
        ),
        AttackClass::ResponseLeak => advice(
            "inspect_response_contracts"@,
            "Inspect upstream response contracts"@,
            "Token, debug, or oversharing signals were detected in the response path."@,
            "Aggressive masking can affect clients that depend on current response shape."@,
            "Enable response inspection in detect mode before blocking."@,
        ),
        AttackClass::ShadowApi
        | AttackClass::ApiInventory => advice(
            "review_shadow_routes"@,
            "Review shadow or undocumented routes"@,
            "Live traffic indicates routes not present in the declared API inventory."@,
            "Some internal or canary routes may be intentionally undocumented."@,
            "Whitelist validated internal routes in the spec database."@,
        ),
    }
}

pub fn recommend_for_finding(finding: &Finding) -> (r: Recommendation)
    ensures
        r.deep_view() == recommendation_for(finding.attack_class),
{
    match finding.attack_class {
        AttackClass::SqlInjection => advise(
            "review_input_validation",
            "Review input validation and parameterization",
            "SQL injection indicators suggest unsafe query construction or weak validation.",
            "Automatic permanent blocking can affect legitimate researchers or false positives.",
            "Use temporary controls first, then tune rule scope.",
        ),
        AttackClass::Xss => advise(
            "tighten_output_encoding",
            "Tighten output encoding and payload filtering",
            "XSS indicators suggest reflected or stored script injection attempts.",
            "Aggressive generic filtering may overblock rich text workflows.",
            "Scope filtering to affected routes and content types.",
        ),
        AttackClass::CommandInjection => advise(
            "isolate_command_surfaces",
            "Review command execution surfaces",
            "Command execution patterns are high risk and should be isolated or removed.",
            "Automatic response is usually safe, but root cause still requires manual review.",
            "Restore route after validation hardening and test coverage.",
        ),
        AttackClass::PathTraversal => advise(
            "restrict_file_path_resolution",
            "Restrict file path resolution",
            "Traversal markers suggest unsafe file access path handling.",
            "Blocking is generally safe, but review file-serving routes carefully.",
            "Restore route-level exceptions only where explicitly needed.",
        ),
        AttackClass::HeaderInjection => advise(
            "reject_crlf_payloads",
            "Reject CRLF and header injection payloads",
            "Header injection can lead to response splitting and downstream abuse.",
            "Low false-positive risk when evidence is strong.",
            "Keep rule enabled unless a verified compatibility issue exists.",
        ),
        AttackClass::RequestSmuggling => advise(
            "review_proxy_header_handling",
            "Review CL/TE and proxy header handling",
            "Smuggling-like signals often need edge and upstream policy review.",
            "Automatic blocking can be noisy depending on deployment topology.",
            "Prefer detect/recommend mode until validated in staging.",
        ),
        AttackClass::Ssrf => advise(
            "enforce_egress_allowlist",
            "Enforce SSRF egress allowlist",
            "SSRF-style targets should be restricted by explicit outbound policy.",
            "Automatic blocking can affect legitimate webhook and integration flows.",
            "Roll back per-route after allowlist tuning.",
        ),
        AttackClass::BrokenAuthentication
        | AttackClass::JwtAbuse
        | AttackClass::AuthAbuse => advise(
            "review_auth_policy",
            "Review auth policy for protected path",
            "Protected route was accessed without valid credentials or token constraints.",
            "Automatic blocking is usually safe on admin or internal routes.",
            "Adjust protected path configuration or token validation policy.",
        ),
        AttackClass::BruteForce
        | AttackClass::RateLimitExceeded
        | AttackClass::BehaviorAnomaly
        | AttackClass::ResourceAbuse => advise(
            "enable_progressive_delay",
            "Enable progressive delay or stricter throttling",
            "Burst or anomalous activity suggests brute-force or abuse pressure.",
            "May increase friction for legitimate heavy users behind shared IPs.",
            "Use shorter TTLs and route-specific overrides.",
        ),
        AttackClass::MethodAbuse => advise(
            "disable_unused_methods",
            "Disable unused HTTP methods",
            "Suspicious methods such as TRACE or CONNECT are rarely needed publicly.",
            "Can affect rare tooling or diagnostics if not scoped.",
            "Re-enable method only where explicitly needed.",
        ),
        AttackClass::PayloadEvasion => advise(
            "increase_inspection_depth",
            "Increase inspection depth for evasive sources",
            "Encoding and mutation signals suggest bypass attempts.",
            "Stricter normalization can raise false positives.",
            "Reduce inspection depth after tuning signatures.",
        ),
        AttackClass::MissingSecurityHeaders
        | AttackClass::SecurityMisconfiguration => advise(
            "add_security_headers",
            "Add security headers upstream",
            "Missing headers are a hardening issue, not necessarily an active exploit.",
            "Some headers may affect browser behavior if added broadly.",
            "Scope header policy to tested routes.",
        ),
        AttackClass::SchemaViolation => advise(
            "tighten_api_schema",
            "Tighten API schema enforcement",
            "Schema drift or malformed requests suggest positive security gaps.",
            "Blocking unknown routes too aggressively can break undocumented integrations.",
            "Use detect mode first, then raise high-confidence routes to block.",
        ),
        AttackClass::ObjectEnumeration
        | AttackClass::TenantBoundaryViolation => advise(
            "harden_object_authorization",
            "Harden object and tenant authorization",
            "Object or tenant-boundary abuse is one of the highest-impact API attack classes.",
            "Route-level exceptions may be required for trusted service accounts.",
            "Start with detect mode and validate route-object mapping before enforcement.",
        ),
        AttackClass::ResponseLeak => advise(
            "inspect_response_contracts",
            "Inspect upstream response contracts",
            "Token, debug, or oversharing signals were detected in the response path.",
            "Aggressive masking can affect clients that depend on current response shape.",
            "Enable response inspection in detect mode before blocking.",
        ),
        AttackClass::ShadowApi
        | AttackClass::ApiInventory => advise(
            "review_shadow_routes",
            "Review shadow or undocumented routes",
            "Live traffic indicates routes not present in the declared API inventory.",
            "Some internal or canary routes may be intentionally undocumented.",
            "Whitelist validated internal routes in the spec database.",
        ),
    }
}

/// What a class of attack is answered with when its rule blocks.
pub open spec fn class_actions(class: AttackClass, suspicious_secs: u64) -> Seq<MitigationAction> {
    match class {
        AttackClass::SqlInjection
        | AttackClass::CommandInjection
        | AttackClass::HeaderInjection
        | AttackClass::PathTraversal
        | AttackClass::Xss
        | AttackClass::BrokenAuthentication
        | AttackClass::JwtAbuse
        | AttackClass::SchemaViolation
        | AttackClass::TenantBoundaryViolation
        | AttackClass::AuthAbuse => seq![
            MitigationAction::BlockRequest,
            MitigationAction::MarkSourceSuspicious { ttl_secs: suspicious_secs },
        ],
        AttackClass::BruteForce
        | AttackClass::RateLimitExceeded
        | AttackClass::BehaviorAnomaly
        | AttackClass::ObjectEnumeration
        | AttackClass::ResourceAbuse => seq![
            MitigationAction::ThrottleSource { ttl_secs: suspicious_secs },
        ],
        AttackClass::PayloadEvasion => seq![
            MitigationAction::MarkSourceSuspicious { ttl_secs: suspicious_secs },
        ],
        AttackClass::MethodAbuse => seq![MitigationAction::BlockRequest],
        AttackClass::Ssrf
        | AttackClass::RequestSmuggling
        | AttackClass::MissingSecurityHeaders
        | AttackClass::ResponseLeak
        | AttackClass::ShadowApi
        | AttackClass::ApiInventory
        | AttackClass::SecurityMisconfiguration => Seq::empty(),
    }
}

/// Whether a blocking rule of this class only leads to a recommendation.
pub open spec fn only_advises(class: AttackClass) -> bool {
    match class {
        AttackClass::Ssrf
        | AttackClass::RequestSmuggling
        | AttackClass::MissingSecurityHeaders
        | AttackClass::ResponseLeak
        | AttackClass::ShadowApi
        | AttackClass::ApiInventory
        | AttackClass::SecurityMisconfiguration => true,
        _ => false,
    }
}

/// The actions for a finding whose rule blocks.
pub open spec fn block_actions(config: AppConfig, f: FindingView) -> Seq<MitigationAction> {
    let actions = class_actions(f.attack_class, config.security.temp_suspicious_secs);
    if f.severity == Severity::Critical {
        actions.push(
            MitigationAction::BlockSourceIpTemporary { ttl_secs: config.security.temp_ban_secs },
        )
    } else {
        actions
    }
}

/// The recommendations for a finding whose rule blocks.
pub open spec fn block_advice(f: FindingView) -> Seq<RecommendationView> {
    if only_advises(f.attack_class) {
        seq![recommendation_for(f.attack_class)]
    } else {
        Seq::empty()
    }
}

fn push_recommendation(v: &mut Vec<Recommendation>, r: Recommendation)
    ensures
        final(v).deep_view() == old(v).deep_view().push(r.deep_view()),
{
    v.push(r);
    assert(v.deep_view() =~= old(v).deep_view().push(r.deep_view()));
}

pub fn apply_block_actions(
    config: &AppConfig,
    finding: &Finding,
    actions: &mut Vec<MitigationAction>,
    recommendations: &mut Vec<Recommendation>,
)
    ensures
        final(actions)@ == old(actions)@ + block_actions(*config, finding.deep_view()),
        final(recommendations).deep_view() == old(recommendations).deep_view() + block_advice(
            finding.deep_view(),
        ),
{
    let ttl_secs: u64 = config.security.temp_suspicious_secs;
    match finding.attack_class {
        AttackClass::SqlInjection
        | AttackClass::CommandInjection
        | AttackClass::HeaderInjection
        | AttackClass::PathTraversal
        | AttackClass::Xss
        | AttackClass::BrokenAuthentication
        | AttackClass::JwtAbuse
        | AttackClass::SchemaViolation
        | AttackClass::TenantBoundaryViolation
        | AttackClass::AuthAbuse => {
            actions.push(MitigationAction::BlockRequest);
            actions.push(MitigationAction::MarkSourceSuspicious { ttl_secs });
        },
        AttackClass::BruteForce
        | AttackClass::RateLimitExceeded
        | AttackClass::BehaviorAnomaly
        | AttackClass::ObjectEnumeration
        | AttackClass::ResourceAbuse => {
            actions.push(MitigationAction::ThrottleSource { ttl_secs });
        },
        AttackClass::PayloadEvasion => {
            actions.push(MitigationAction::MarkSourceSuspicious { ttl_secs });
        },
        AttackClass::MethodAbuse => {
            actions.push(MitigationAction::BlockRequest);
        },
        AttackClass::Ssrf
        | AttackClass::RequestSmuggling
        | AttackClass::MissingSecurityHeaders
        | AttackClass::ResponseLeak
        | AttackClass::ShadowApi
        | AttackClass::ApiInventory
        | AttackClass::SecurityMisconfiguration => {
            push_recommendation(recommendations, recommend_for_finding(finding));
        },
    }
    if let Severity::Critical = finding.severity {
        actions.push(
            MitigationAction::BlockSourceIpTemporary { ttl_secs: config.security.temp_ban_secs },
        );
    }
    assert(actions@ =~= old(actions)@ + block_actions(*config, finding.deep_view()));
    assert(recommendations.deep_view() =~= old(recommendations).deep_view() + block_advice(
        finding.deep_view(),
    ));
}

/// The key of an action: two actions with the same key are the same.
pub open spec fn action_key_of(action: MitigationAction) -> Seq<char> {
    match action {
        MitigationAction::BlockRequest => "BlockRequest"@,
        MitigationAction::BlockSourceIpTemporary { ttl_secs } => "BlockSourceIpTemporary:"@
            + text::decimal_of(ttl_secs as nat),
        MitigationAction::ThrottleSource { ttl_secs } => "ThrottleSource:"@ + text::decimal_of(
            ttl_secs as nat,
        ),
        MitigationAction::MarkSourceSuspicious { ttl_secs } => "MarkSourceSuspicious:"@
            + text::decimal_of(ttl_secs as nat),
    }
}

pub open spec fn by_action_key() -> spec_fn(MitigationAction) -> Seq<char> {
    |a: MitigationAction| action_key_of(a)
}

pub open spec fn by_advice_key() -> spec_fn(RecommendationView) -> Seq<char> {
    |r: RecommendationView| r.action_key
}

pub fn action_key(action: &MitigationAction) -> (r: String)
    ensures
        r@ == action_key_of(*action),
{
    match action {
        MitigationAction::BlockRequest => "BlockRequest".to_string(),
        MitigationAction::BlockSourceIpTemporary { ttl_secs } => text::cat2(
            "BlockSourceIpTemporary:",
            text::decimal(*ttl_secs as u128).as_str(),
        ),
        MitigationAction::ThrottleSource { ttl_secs } => text::cat2(
            "ThrottleSource:",
            text::decimal(*ttl_secs as u128).as_str(),
        ),
        MitigationAction::MarkSourceSuspicious { ttl_secs } => text::cat2(
            "MarkSourceSuspicious:",
            text::decimal(*ttl_secs as u128).as_str(),
        ),
    }
}

/// Keeps the first of several equal actions.
pub fn dedupe_actions(actions: &mut Vec<MitigationAction>)
    ensures
        final(actions)@ == dedupe::first_by_key(old(actions)@, by_action_key()),
{
    let ghost all = actions@;
    let ghost key = by_action_key();
    let mut seen: Vec<String> = Vec::new();
    let mut out: Vec<MitigationAction> = Vec::new();
    let mut i: usize = 0;
    assert(all.take(0) =~= Seq::empty());
    while i < actions.len()
        invariant
            i <= actions@.len(),
            all == actions@,
            key == by_action_key(),
            out@ == dedupe::first_by_key(all.take(i as int), key),
            forall|k: Seq<char>| #[trigger]
                seen.deep_view().contains(k) == dedupe::has_key(all.take(i as int), key, k),
        decreases actions@.len() - i,
    {
        let a = actions[i];
        let k = action_key(&a);
        let ghost d = all.take(i as int);
        let ghost s = all.take(i + 1);
        assert(s.drop_last() =~= d);
        assert(s.last() == a && key(a) == k@);
        if !text::list_contains(&seen, k.as_str()) {
            out.push(a);
        }
        let ghost before = seen.deep_view();
        text::push_text(&mut seen, k);
        proof {
            lemma_keys_grow(before, d, a, key);
            assert(d.push(a) =~= s);
        }
        i = i + 1;
    }
    assert(all.take(i as int) =~= all);
    *actions = out;
}

/// When a list of keys holds the keys of some items, it does so after an item and its key were
/// added.
pub proof fn lemma_keys_grow<A>(
    keys: Seq<Seq<char>>,
    items: Seq<A>,
    item: A,
    key: spec_fn(A) -> Seq<char>,
)
    requires
        forall|k: Seq<char>| #[trigger] keys.contains(k) == dedupe::has_key(items, key, k),
    ensures
        forall|k: Seq<char>| #[trigger]
            keys.push(key(item)).contains(k) == dedupe::has_key(items.push(item), key, k),
{
    crate::store::lemma_push_contains(keys, key(item));
    assert forall|k: Seq<char>| #[trigger]
        keys.push(key(item)).contains(k) == dedupe::has_key(items.push(item), key, k) by {
        let t = items.push(item);
        assert(keys.contains(k) == dedupe::has_key(items, key, k));
        if dedupe::has_key(items, key, k) {
            let i = choose|i: int| 0 <= i < items.len() && key(#[trigger] items[i]) == k;
            assert(t[i] == items[i]);
        }
        if dedupe::has_key(t, key, k) {
            let i = choose|i: int| 0 <= i < t.len() && key(#[trigger] t[i]) == k;
            if i < items.len() {
                assert(items[i] == t[i]);
            }
        }
        if k == key(item) {
            assert(t[items.len() as int] == item);
        }
    }
}

/// Keeps the first of several recommendations of the same kind.
pub fn dedupe_recommendations(recommendations: &mut Vec<Recommendation>)
    ensures
        final(recommendations).deep_view() == dedupe::first_by_key(
            old(recommendations).deep_view(),
            by_advice_key(),
        ),
{
    let ghost all = recommendations.deep_view();
    let ghost key = by_advice_key();
    let mut seen: Vec<String> = Vec::new();
    let mut out: Vec<Recommendation> = Vec::new();
    let mut i: usize = 0;
    assert(all.take(0) =~= Seq::empty());
    assert(out.deep_view() =~= Seq::empty());
    while i < recommendations.len()
        invariant
            i <= recommendations@.len(),
            all == recommendations.deep_view(),
            key == by_advice_key(),
            out.deep_view() == dedupe::first_by_key(all.take(i as int), key),
            forall|k: Seq<char>| #[trigger]
                seen.deep_view().contains(k) == dedupe::has_key(all.take(i as int), key, k),
        decreases recommendations@.len() - i,
    {
        let k = recommendations[i].action_key.clone();
        let ghost d = all.take(i as int);
        let ghost s = all.take(i + 1);
        let ghost item = all[i as int];
        assert(s.drop_last() =~= d);
        assert(s.last() == item && key(item) == k@);
        if !text::list_contains(&seen, k.as_str()) {
            push_recommendation(&mut out, recommendations[i].clone());
        }
        let ghost before = seen.deep_view();
        text::push_text(&mut seen, k);
        proof {
            lemma_keys_grow(before, d, item, key);
            assert(d.push(item) =~= s);
        }
        i = i + 1;
    }
    assert(all.take(i as int) =~= all);
    *recommendations = out;
}

/// All actions that some findings ask for under a policy mode, in order.
pub open spec fn actions_for(
    config: AppConfig,
    policy_mode: PolicyMode,
    findings: Seq<FindingView>,
) -> Seq<MitigationAction>
    decreases findings.len(),
{
    if findings.len() == 0 {
        Seq::empty()
    } else {
        let before = actions_for(config, policy_mode, findings.drop_last());
        match effective_mode(policy_mode, findings.last().mode) {
            RuleMode::Block => before + block_actions(config, findings.last()),
            _ => before,
        }
    }
}

/// All recommendations for some findings under a policy mode, in order.
pub open spec fn advice_for(policy_mode: PolicyMode, findings: Seq<FindingView>) -> Seq<
    RecommendationView,
>
    decreases findings.len(),
{
    if findings.len() == 0 {
        Seq::empty()
    } else {
        let before = advice_for(policy_mode, findings.drop_last());
        match effective_mode(policy_mode, findings.last().mode) {
            RuleMode::Block => before + block_advice(findings.last()),
            _ => before.push(recommendation_for(findings.last().attack_class)),
        }
    }
}

/// Whether a finding alone rejects the request.
pub open spec fn rejects(config: AppConfig, policy_mode: PolicyMode, f: FindingView) -> bool {
    effective_mode(policy_mode, f.mode) == RuleMode::Block && blocking_confidence_met(
        config,
        policy_mode,
        f,
    )
}

/// Whether the findings reject the request: one of them alone does, or one of them is critical and
/// the risk has reached the threshold of the policy mode.
pub open spec fn should_reject(
    config: AppConfig,
    policy_mode: PolicyMode,
    findings: Seq<FindingView>,
    risk: int,
) -> bool {
    ||| exists|i: int|
        0 <= i < findings.len() && rejects(config, policy_mode, #[trigger] findings[i])
    ||| {
        &&& risk_threshold(policy_mode) is Some
        &&& risk >= risk_threshold(policy_mode)->0
        &&& exists|i: int|
            0 <= i < findings.len() && (#[trigger] findings[i]).severity == Severity::Critical
    }
}

/// A number in fixed-point units with two decimals.
pub open spec fn two_decimals(n: int) -> Seq<char> {
    text::decimal_of((n / 1_000_000) as nat) + "."@ + seq![
        text::digit_char(((n / 100_000) % 10) as nat),
        text::digit_char(((n / 10_000) % 10) as nat),
    ]
}

fn format_two_decimals(n: i128) -> (r: String)
    requires
        n >= 0,
    ensures
        r@ == two_decimals(n as int),
{
    let whole: u128 = (n / 1_000_000) as u128;
    let tenths: u8 = ((n / 100_000) % 10) as u8;
    let hundredths: u8 = ((n / 10_000) % 10) as u8;
    let digits = text::decimal(whole);
    let mut out = text::cat2(digits.as_str(), ".");
    out.push((tenths + 48) as char);
    out.push((hundredths + 48) as char);
    assert(out@ =~= two_decimals(n as int));
    out
}

/// The decision on a request with findings.
pub open spec fn decision_of(
    config: AppConfig,
    policy_mode: PolicyMode,
    exceptions: Seq<DetectorException>,
    path: Seq<char>,
    reputation_score: i32,
    findings: Seq<FindingView>,
) -> SecurityDecisionView {
    if findings.len() == 0 {
        SecurityDecisionView {
            outcome: DecisionOutcomeView::Allow,
            actions: Seq::empty(),
            recommendations: Seq::empty(),
            findings,
            summary: "request allowed"@,
            risk_score: 0,
        }
    } else {
        let risk = risk_of(findings, reputation_score);
        let effective = all_excepted(exceptions, findings, path);
        let reject = should_reject(config, policy_mode, effective, risk);
        SecurityDecisionView {
            outcome: if reject {
                DecisionOutcomeView::Reject {
                    status_code: 403,
                    message: "request rejected by security policy"@,
                }
            } else {
                DecisionOutcomeView::Allow
            },
            actions: dedupe::first_by_key(
                actions_for(config, policy_mode, effective),
                by_action_key(),
            ),
            recommendations: dedupe::first_by_key(
                advice_for(policy_mode, effective),
                by_advice_key(),
            ),
            findings,
            summary: if reject {
                "request rejected (risk_score="@ + two_decimals(risk) + ")"@
            } else {
                "findings recorded without blocking (risk_score="@ + two_decimals(risk) + ")"@
            },
            risk_score: risk as i128,
        }
    }
}

/// Decides on a request from its findings and the reputation of its source.
pub fn evaluate_findings(
    config: &AppConfig,
    policy: &LivePolicyState,
    store: &TemporaryMitigationStore,
    context: &RequestContext,
    findings: Vec<Finding>,
    now: Timestamp,
) -> (r: SecurityDecision)
    ensures
        r.deep_view() == decision_of(
            *config,
            policy.policy_mode,
            policy.detector_exceptions@,
            context.path@,
            mitigation::score_in(store.reputations(), context.source_ip@),
            findings.deep_view(),
        ),
{
    if findings.len() == 0 {
        let decision = SecurityDecision {
            outcome: DecisionOutcome::Allow,
            actions: Vec::new(),
            recommendations: Vec::new(),
            findings,
            summary: "request allowed".to_string(),
            risk_score: 0,
        };
        assert(decision.deep_view().actions =~= Seq::empty());
        assert(decision.deep_view().recommendations =~= Seq::empty());
        return decision;
    }
    let reputation = store.get_reputation(context.source_ip.as_str(), now);
    decide(config, policy, context.path.as_str(), reputation.suspicious_score, findings)
}

fn decide(
    config: &AppConfig,
    policy: &LivePolicyState,
    path: &str,
    reputation_score: i32,
    findings: Vec<Finding>,
) -> (r: SecurityDecision)
    requires
        findings@.len() > 0,
    ensures
        r.deep_view() == decision_of(
            *config,
            policy.policy_mode,
            policy.detector_exceptions@,
            path@,
            reputation_score,
            findings.deep_view(),
        ),
{
    let risk_score = calculate_risk(&findings, reputation_score);
    let policy_mode = policy.policy_mode;
    let effective = apply_detector_exceptions(&policy.detector_exceptions, path, &findings);
    let ghost all = effective.deep_view();
    let mut actions: Vec<MitigationAction> = Vec::new();
    let mut recommendations: Vec<Recommendation> = Vec::new();
    let mut reject = false;
    let mut critical = false;
    let mut i: usize = 0;
    assert(actions@ =~= actions_for(*config, policy_mode, all.take(0)));
    assert(recommendations.deep_view() =~= advice_for(policy_mode, all.take(0)));
    while i < effective.len()
        invariant
            i <= effective@.len(),
            all == effective.deep_view(),
            actions@ == actions_for(*config, policy_mode, all.take(i as int)),
            recommendations.deep_view() == advice_for(policy_mode, all.take(i as int)),
            reject == (exists|j: int|
                0 <= j < i && rejects(*config, policy_mode, #[trigger] all[j])),
            critical == (exists|j: int|
                0 <= j < i && (#[trigger] all[j]).severity == Severity::Critical),
        decreases effective@.len() - i,
    {
        let finding = &effective[i];
        assert(all[i as int] == finding.deep_view());
        assert(all.take(i + 1).drop_last() =~= all.take(i as int));
        match effective_rule_mode(policy_mode, finding.mode) {
            RuleMode::DetectOnly | RuleMode::Recommend => {
                push_recommendation(&mut recommendations, recommend_for_finding(finding));
            },
            RuleMode::Block => {
                apply_block_actions(config, finding, &mut actions, &mut recommendations);
                if is_blocking_confidence_met(config, policy_mode, finding) {
                    reject = true;
                }
            },
        }
        if let Severity::Critical = finding.severity {
            critical = true;
        }
        i = i + 1;
    }
    assert(all.take(i as int) =~= all);
    dedupe_actions(&mut actions);
    dedupe_recommendations(&mut recommendations);
    if let Some(threshold) = blocking_risk_threshold(policy_mode) {
        if risk_score >= threshold && critical {
            reject = true;
        }
    }
    assert(reject == should_reject(*config, policy_mode, all, risk_score as int));
    let outcome = if reject {
        DecisionOutcome::Reject {
            status_code: 403,
            message: "request rejected by security policy".to_string(),
        }
    } else {
        DecisionOutcome::Allow
    };
    let risk_text = format_two_decimals(risk_score);
    let summary = if reject {
        text::cat3("request rejected (risk_score=", risk_text.as_str(), ")")
    } else {
        text::cat3(
            "findings recorded without blocking (risk_score=",
            risk_text.as_str(),
            ")",
        )
    };
    let decision = SecurityDecision {
        outcome,
        actions,
        recommendations,
        findings,
        summary,
        risk_score,
    };
    assert(decision.deep_view().actions =~= actions@);
    decision
}

/// While monitoring no request is rejected and no action is taken, whatever was found.
pub proof fn law_monitor_never_rejects(
    config: AppConfig,
    exceptions: Seq<DetectorException>,
    path: Seq<char>,
    reputation_score: i32,
    findings: Seq<FindingView>,
)
    ensures
        decision_of(config, PolicyMode::Monitor, exceptions, path, reputation_score, findings).outcome
            == DecisionOutcomeView::Allow,
        decision_of(config, PolicyMode::Monitor, exceptions, path, reputation_score, findings).actions
            == Seq::<MitigationAction>::empty(),
{
    let effective = all_excepted(exceptions, findings, path);
    lemma_monitor_no_actions(config, effective);
}

proof fn lemma_monitor_no_actions(config: AppConfig, findings: Seq<FindingView>)
    ensures
        actions_for(config, PolicyMode::Monitor, findings) == Seq::<MitigationAction>::empty(),
    decreases findings.len(),
{
    if findings.len() > 0 {
        lemma_monitor_no_actions(config, findings.drop_last());
    }
}

/// A request without findings is let through, and nothing is done or recommended.
pub proof fn law_no_findings_no_effect(
    config: AppConfig,
    policy_mode: PolicyMode,
    exceptions: Seq<DetectorException>,
    path: Seq<char>,
    reputation_score: i32,
)
    ensures
        ({
            let d = decision_of(
                config,
                policy_mode,
                exceptions,
                path,
                reputation_score,
                Seq::empty(),
            );
            &&& d.outcome == DecisionOutcomeView::Allow
            &&& d.actions.len() == 0
            &&& d.recommendations.len() == 0
            &&& d.risk_score == 0
        }),
{
}

/// A decision records all findings as they were, a rejection always has status 403, and no action
/// or recommendation comes twice.
pub proof fn law_decision_shape(
    config: AppConfig,
    policy_mode: PolicyMode,
    exceptions: Seq<DetectorException>,
    path: Seq<char>,
    reputation_score: i32,
    findings: Seq<FindingView>,
)
    ensures
        ({
            let d = decision_of(config, policy_mode, exceptions, path, reputation_score, findings);
            &&& d.findings == findings
            &&& d.outcome is Reject ==> d.outcome->status_code == 403
            &&& dedupe::distinct_keys(d.actions, by_action_key())
            &&& dedupe::distinct_keys(d.recommendations, by_advice_key())
        }),
{
    if findings.len() > 0 {
        let effective = all_excepted(exceptions, findings, path);
        dedupe::law_first_by_key(actions_for(config, policy_mode, effective), by_action_key());
        dedupe::law_first_by_key(advice_for(policy_mode, effective), by_advice_key());
    }
}

/// Findings that an exception covers do not reject a request by themselves: without a critical
/// finding the request is let through.
pub proof fn law_exempted_findings_do_not_reject(
    config: AppConfig,
    policy_mode: PolicyMode,
    exceptions: Seq<DetectorException>,
    path: Seq<char>,
    reputation_score: i32,
    findings: Seq<FindingView>,
)
    requires
        forall|i: int| 0 <= i < findings.len() ==> exempted(exceptions, #[trigger] findings[i], path),
        forall|i: int|
            0 <= i < findings.len() ==> (#[trigger] findings[i]).severity != Severity::Critical,
    ensures
        decision_of(config, policy_mode, exceptions, path, reputation_score, findings).outcome
            == DecisionOutcomeView::Allow,
{
    let effective = all_excepted(exceptions, findings, path);
    assert forall|i: int| 0 <= i < effective.len() implies !rejects(
        config,
        policy_mode,
        #[trigger] effective[i],
    ) && effective[i].severity != Severity::Critical by {
        assert(exempted(exceptions, findings[i], path));
        assert(effective[i].mode == RuleMode::DetectOnly);
    }
}

/// What balanced mode rejects, strict mode rejects too, where the configured thresholds are not
/// below the floors of strict mode.
pub proof fn law_strict_rejects_what_balanced_does(
    config: AppConfig,
    findings: Seq<FindingView>,
    risk: int,
)
    requires
        config.security.min_block_confidence >= 550_000,
        config.security.min_block_score >= 35_000_000,
        should_reject(config, PolicyMode::Balanced, findings, risk),
    ensures
        should_reject(config, PolicyMode::Strict, findings, risk),
{
    if exists|i: int|
        0 <= i < findings.len() && rejects(config, PolicyMode::Balanced, #[trigger] findings[i]) {
        let i = choose|i: int|
            0 <= i < findings.len() && rejects(config, PolicyMode::Balanced, #[trigger] findings[i]);
        assert(rejects(config, PolicyMode::Strict, findings[i]));
    }
}

/// Different actions have different keys.
pub proof fn law_action_keys_tell_apart(a: MitigationAction, b: MitigationAction)
    requires
        action_key_of(a) == action_key_of(b),
    ensures
        a == b,
{
    reveal_strlit("BlockRequest");
    reveal_strlit("BlockSourceIpTemporary:");
    reveal_strlit("ThrottleSource:");
    reveal_strlit("MarkSourceSuspicious:");
    let ka = action_key_of(a);
    let kb = action_key_of(b);
    match a {
        MitigationAction::BlockRequest => {
            assert(ka[5] == 'R');
        },
        MitigationAction::BlockSourceIpTemporary { ttl_secs } => {
            assert(ka[5] == 'S');
            lemma_tail(ka, "BlockSourceIpTemporary:"@, text::decimal_of(ttl_secs as nat));
            text::law_decimal_value(ttl_secs as nat);
        },
        MitigationAction::ThrottleSource { ttl_secs } => {
            assert(ka[0] == 'T');
            lemma_tail(ka, "ThrottleSource:"@, text::decimal_of(ttl_secs as nat));
            text::law_decimal_value(ttl_secs as nat);
        },
        MitigationAction::MarkSourceSuspicious { ttl_secs } => {
            assert(ka[0] == 'M');
            lemma_tail(ka, "MarkSourceSuspicious:"@, text::decimal_of(ttl_secs as nat));
            text::law_decimal_value(ttl_secs as nat);
        },
    }
    match b {
        MitigationAction::BlockRequest => {
            assert(kb[0] == 'B');
            assert(kb[5] == 'R');
        },
        MitigationAction::BlockSourceIpTemporary { ttl_secs } => {
            assert(kb[0] == 'B');
            assert(kb[5] == 'S');
            lemma_tail(kb, "BlockSourceIpTemporary:"@, text::decimal_of(ttl_secs as nat));
            text::law_decimal_value(ttl_secs as nat);
        },
        MitigationAction::ThrottleSource { ttl_secs } => {
            assert(kb[0] == 'T');
            lemma_tail(kb, "ThrottleSource:"@, text::decimal_of(ttl_secs as nat));
            text::law_decimal_value(ttl_secs as nat);
        },
        MitigationAction::MarkSourceSuspicious { ttl_secs } => {
            assert(kb[0] == 'M');
            lemma_tail(kb, "MarkSourceSuspicious:"@, text::decimal_of(ttl_secs as nat));
            text::law_decimal_value(ttl_secs as nat);
        },
    }
}

proof fn lemma_tail(whole: Seq<char>, head: Seq<char>, tail: Seq<char>)
    requires
        whole == head + tail,
    ensures
        whole.skip(head.len() as int) == tail,
{
    assert(whole.skip(head.len() as int) =~= tail);
}

} // verus!
