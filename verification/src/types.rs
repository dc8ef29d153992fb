//! The values that the firewall works on.

use crate::config::{
    AppConfig, DetectorException, DetectorExceptionView, PolicyMode, RouteBehaviorOverride,
    RouteBehaviorOverrideView, RoutePolicyOverride, RoutePolicyOverrideView,
    RouteRateLimitOverride, RouteRateLimitOverrideView, RouteSensitivity, RuleMode, RuleModes,
    SpecUnknownRouteMode, UNIT,
};
use crate::table;
use crate::text;
use vstd::prelude::*;

verus! {

/// A point in time: nanoseconds since the Unix epoch.
pub type Timestamp = i128;

#[derive(Debug, Clone, Copy, PartialEq, Eq, Structural)]
pub enum AuthStatus {
    NotRequired,
    Satisfied,
    Missing,
    Invalid,
}

#[derive(Debug, Clone, Copy, PartialEq, Eq, Structural)]
pub enum AttackClass {
    SqlInjection,
    Xss,
    CommandInjection,
    PathTraversal,
    HeaderInjection,
    RequestSmuggling,
    Ssrf,
    BrokenAuthentication,
    BruteForce,
    RateLimitExceeded,
    MethodAbuse,
    PayloadEvasion,
    MissingSecurityHeaders,
    SchemaViolation,
    JwtAbuse,
    ObjectEnumeration,
    BehaviorAnomaly,
    ResponseLeak,
    ShadowApi,
    TenantBoundaryViolation,
    ApiInventory,
    AuthAbuse,
    ResourceAbuse,
    SecurityMisconfiguration,
}

#[derive(Debug, Clone, Copy, PartialEq, Eq, Structural)]
pub enum Severity {
    Low,
    Medium,
    High,
    Critical,
}

#[derive(Debug, Clone, Copy, PartialEq, Eq, Structural)]
pub enum MitigationAction {
    BlockRequest,
    BlockSourceIpTemporary { ttl_secs: u64 },
    ThrottleSource { ttl_secs: u64 },
    MarkSourceSuspicious { ttl_secs: u64 },
}

#[derive(Debug, Clone, Copy, PartialEq, Eq, Structural)]
pub enum OperatorActionKind {
    BlockIpTemporary,
    UnblockIp,
    TightenRouteRateLimit,
    SwitchRuleMode,
    ResetReputation,
}

#[derive(Debug, Clone, Copy, PartialEq, Eq, Structural)]
pub enum ApiInventoryStatus {
    New,
    Known,
    Approved,
    Deprecated,
    Unknown,
}

#[derive(Debug)]
pub struct ParsedBodyField {
    pub key: String,
    pub value_preview: String,
}

#[verifier::ext_equal]
pub struct ParsedBodyFieldView {
    pub key: Seq<char>,
    pub value_preview: Seq<char>,
}

impl DeepView for ParsedBodyField {
    type V = ParsedBodyFieldView;

    open spec fn deep_view(&self) -> ParsedBodyFieldView {
        ParsedBodyFieldView {
            key: self.key@,
            value_preview: self.value_preview@,
        }
    }
}

impl Clone for ParsedBodyField {
    fn clone(&self) -> (r: Self)
        ensures
            r == *self,
    {
        ParsedBodyField {
            key: self.key.clone(),
            value_preview: self.value_preview.clone(),
        }
    }
}

/// A request as the inspection sees it. The source address is in its canonical text form.
#[derive(Debug)]
pub struct RequestContext {
    pub request_id: String,
    pub timestamp: Timestamp,
    pub source_ip: String,
    pub method: String,
    pub path: String,
    pub query: Option<String>,
    pub body_preview: Option<String>,
    pub parsed_body_fields: Vec<ParsedBodyField>,
    pub auth_status: AuthStatus,
}

#[verifier::ext_equal]
pub struct RequestContextView {
    pub request_id: Seq<char>,
    pub timestamp: Timestamp,
    pub source_ip: Seq<char>,
    pub method: Seq<char>,
    pub path: Seq<char>,
    pub query: Option<Seq<char>>,
    pub body_preview: Option<Seq<char>>,
    pub parsed_body_fields: Seq<ParsedBodyFieldView>,
    pub auth_status: AuthStatus,
}

impl DeepView for RequestContext {
    type V = RequestContextView;

    open spec fn deep_view(&self) -> RequestContextView {
        RequestContextView {
            request_id: self.request_id@,
            timestamp: self.timestamp,
            source_ip: self.source_ip@,
            method: self.method@,
            path: self.path@,
            query: self.query.deep_view(),
            body_preview: self.body_preview.deep_view(),
            parsed_body_fields: self.parsed_body_fields.deep_view(),
            auth_status: self.auth_status,
        }
    }
}

impl Clone for RequestContext {
    fn clone(&self) -> (r: Self)
        ensures
            r.deep_view() == self.deep_view(),
    {
        let parsed_body_fields = self.parsed_body_fields.clone();
        assert(parsed_body_fields.deep_view() =~= self.parsed_body_fields.deep_view());
        RequestContext {
            request_id: self.request_id.clone(),
            timestamp: self.timestamp,
            source_ip: self.source_ip.clone(),
            method: self.method.clone(),
            path: self.path.clone(),
            query: text::clone_option(&self.query),
            body_preview: text::clone_option(&self.body_preview),
            parsed_body_fields,
            auth_status: self.auth_status,
        }
    }
}

#[derive(Debug)]
pub struct FindingEvidence {
    pub location: String,
    pub value_preview: String,
}

#[verifier::ext_equal]
pub struct FindingEvidenceView {
    pub location: Seq<char>,
    pub value_preview: Seq<char>,
}

impl DeepView for FindingEvidence {
    type V = FindingEvidenceView;

    open spec fn deep_view(&self) -> FindingEvidenceView {
        FindingEvidenceView {
            location: self.location@,
            value_preview: self.value_preview@,
        }
    }
}

impl Clone for FindingEvidence {
    fn clone(&self) -> (r: Self)
        ensures
            r == *self,
    {
        FindingEvidence {
            location: self.location.clone(),
            value_preview: self.value_preview.clone(),
        }
    }
}

/// Something that a detector has seen. The confidence is in fixed-point units.
#[derive(Debug)]
pub struct Finding {
    pub rule_id: String,
    pub attack_class: AttackClass,
    pub severity: Severity,
    pub confidence: i64,
    pub message: String,
    pub evidence: Vec<FindingEvidence>,
    pub mode: RuleMode,
}

#[verifier::ext_equal]
pub struct FindingView {
    pub rule_id: Seq<char>,
    pub attack_class: AttackClass,
    pub severity: Severity,
    pub confidence: i64,
    pub message: Seq<char>,
    pub evidence: Seq<FindingEvidenceView>,
    pub mode: RuleMode,
}

impl DeepView for Finding {
    type V = FindingView;

    open spec fn deep_view(&self) -> FindingView {
        FindingView {
            rule_id: self.rule_id@,
            attack_class: self.attack_class,
            severity: self.severity,
            confidence: self.confidence,
            message: self.message@,
            evidence: self.evidence.deep_view(),
            mode: self.mode,
        }
    }
}

impl Clone for Finding {
    fn clone(&self) -> (r: Self)
        ensures
            r.deep_view() == self.deep_view(),
    {
        let evidence = self.evidence.clone();
        assert(evidence.deep_view() =~= self.evidence.deep_view());
        Finding {
            rule_id: self.rule_id.clone(),
            attack_class: self.attack_class,
            severity: self.severity,
            confidence: self.confidence,
            message: self.message.clone(),
            evidence,
            mode: self.mode,
        }
    }
}

#[derive(Debug)]
pub struct Recommendation {
    pub action_key: String,
    pub title: String,
    pub rationale: String,
    pub risk: String,
    pub rollback_hint: String,
    pub parameters: Vec<(String, String)>,
}

#[verifier::ext_equal]
pub struct RecommendationView {
    pub action_key: Seq<char>,
    pub title: Seq<char>,
    pub rationale: Seq<char>,
    pub risk: Seq<char>,
    pub rollback_hint: Seq<char>,
    pub parameters: Seq<(Seq<char>, Seq<char>)>,
}

impl DeepView for Recommendation {
    type V = RecommendationView;

    open spec fn deep_view(&self) -> RecommendationView {
        RecommendationView {
            action_key: self.action_key@,
            title: self.title@,
            rationale: self.rationale@,
            risk: self.risk@,
            rollback_hint: self.rollback_hint@,
            parameters: self.parameters.deep_view(),
        }
    }
}

impl Clone for Recommendation {
    fn clone(&self) -> (r: Self)
        ensures
            r.deep_view() == self.deep_view(),
    {
        let parameters = text::clone_pairs(&self.parameters);
        Recommendation {
            action_key: self.action_key.clone(),
            title: self.title.clone(),
            rationale: self.rationale.clone(),
            risk: self.risk.clone(),
            rollback_hint: self.rollback_hint.clone(),
            parameters,
        }
    }
}

/// A decision on a request. The risk score is in fixed-point units.
#[derive(Debug)]
pub struct SecurityDecision {
    pub outcome: DecisionOutcome,
    pub actions: Vec<MitigationAction>,
    pub recommendations: Vec<Recommendation>,
    pub findings: Vec<Finding>,
    pub summary: String,
    pub risk_score: i128,
}

#[verifier::ext_equal]
pub struct SecurityDecisionView {
    pub outcome: DecisionOutcomeView,
    pub actions: Seq<MitigationAction>,
    pub recommendations: Seq<RecommendationView>,
    pub findings: Seq<FindingView>,
    pub summary: Seq<char>,
    pub risk_score: i128,
}

impl DeepView for SecurityDecision {
    type V = SecurityDecisionView;

    open spec fn deep_view(&self) -> SecurityDecisionView {
        SecurityDecisionView {
            outcome: self.outcome.deep_view(),
            actions: self.actions.deep_view(),
            recommendations: self.recommendations.deep_view(),
            findings: self.findings.deep_view(),
            summary: self.summary@,
            risk_score: self.risk_score,
        }
    }
}

impl Clone for SecurityDecision {
    fn clone(&self) -> (r: Self)
        ensures
            r.deep_view() == self.deep_view(),
    {
        let actions = self.actions.clone();
        assert(actions.deep_view() =~= self.actions.deep_view());
        let recommendations = self.recommendations.clone();
        assert(recommendations.deep_view() =~= self.recommendations.deep_view());
        let findings = self.findings.clone();
        assert(findings.deep_view() =~= self.findings.deep_view());
        SecurityDecision {
            outcome: self.outcome.clone(),
            actions,
            recommendations,
            findings,
            summary: self.summary.clone(),
            risk_score: self.risk_score,
        }
    }
}

#[derive(Debug)]
pub struct SecurityEvent {
    pub request_id: String,
    pub timestamp: Timestamp,
    pub source_ip: String,
    pub method: String,
    pub path: String,
    pub findings: Vec<Finding>,
    pub decision: SecurityDecision,
    pub normalized_route: Option<String>,
}

#[verifier::ext_equal]
pub struct SecurityEventView {
    pub request_id: Seq<char>,
    pub timestamp: Timestamp,
    pub source_ip: Seq<char>,
    pub method: Seq<char>,
    pub path: Seq<char>,
    pub findings: Seq<FindingView>,
    pub decision: SecurityDecisionView,
    pub normalized_route: Option<Seq<char>>,
}

impl DeepView for SecurityEvent {
    type V = SecurityEventView;

    open spec fn deep_view(&self) -> SecurityEventView {
        SecurityEventView {
            request_id: self.request_id@,
            timestamp: self.timestamp,
            source_ip: self.source_ip@,
            method: self.method@,
            path: self.path@,
            findings: self.findings.deep_view(),
            decision: self.decision.deep_view(),
            normalized_route: self.normalized_route.deep_view(),
        }
    }
}

#[derive(Debug)]
pub struct SourceReputation {
    pub source_ip: String,
    pub suspicious_score: i32,
    pub last_seen_at: Timestamp,
}

#[verifier::ext_equal]
pub struct SourceReputationView {
    pub source_ip: Seq<char>,
    pub suspicious_score: i32,
    pub last_seen_at: Timestamp,
}

impl DeepView for SourceReputation {
    type V = SourceReputationView;

    open spec fn deep_view(&self) -> SourceReputationView {
        SourceReputationView {
            source_ip: self.source_ip@,
            suspicious_score: self.suspicious_score,
            last_seen_at: self.last_seen_at,
        }
    }
}

impl Clone for SourceReputation {
    fn clone(&self) -> (r: Self)
        ensures
            r == *self,
    {
        SourceReputation {
            source_ip: self.source_ip.clone(),
            suspicious_score: self.suspicious_score,
            last_seen_at: self.last_seen_at,
        }
    }
}

#[derive(Debug)]
pub struct OperatorActionCommand {
    pub kind: OperatorActionKind,
    pub title: String,
    pub rationale: String,
    pub reversible: bool,
    pub parameters: Vec<(String, String)>,
}

#[verifier::ext_equal]
pub struct OperatorActionCommandView {
    pub kind: OperatorActionKind,
    pub title: Seq<char>,
    pub rationale: Seq<char>,
    pub reversible: bool,
    pub parameters: Seq<(Seq<char>, Seq<char>)>,
}

impl DeepView for OperatorActionCommand {
    type V = OperatorActionCommandView;

    open spec fn deep_view(&self) -> OperatorActionCommandView {
        OperatorActionCommandView {
            kind: self.kind,
            title: self.title@,
            rationale: self.rationale@,
            reversible: self.reversible,
            parameters: self.parameters.deep_view(),
        }
    }
}

impl Clone for OperatorActionCommand {
    fn clone(&self) -> (r: Self)
        ensures
            r.deep_view() == self.deep_view(),
    {
        let parameters = text::clone_pairs(&self.parameters);
        OperatorActionCommand {
            kind: self.kind,
            title: self.title.clone(),
            rationale: self.rationale.clone(),
            reversible: self.reversible,
            parameters,
        }
    }
}

/// A route that live traffic has shown.
#[derive(Debug)]
pub struct LearnedRoute {
    pub method: String,
    pub normalized_path: String,
    pub first_seen: Timestamp,
    pub last_seen: Timestamp,
    pub hits: u64,
    pub has_auth: bool,
    pub request_content_types: Vec<String>,
    pub response_content_types: Vec<String>,
    pub observed_status_codes: Vec<u16>,
    pub min_request_bytes: Option<usize>,
    pub max_request_bytes: Option<usize>,
    pub min_response_bytes: Option<usize>,
    pub max_response_bytes: Option<usize>,
    pub status: ApiInventoryStatus,
}

#[verifier::ext_equal]
pub struct LearnedRouteView {
    pub method: Seq<char>,
    pub normalized_path: Seq<char>,
    pub first_seen: Timestamp,
    pub last_seen: Timestamp,
    pub hits: u64,
    pub has_auth: bool,
    pub request_content_types: Seq<Seq<char>>,
    pub response_content_types: Seq<Seq<char>>,
    pub observed_status_codes: Seq<u16>,
    pub min_request_bytes: Option<usize>,
    pub max_request_bytes: Option<usize>,
    pub min_response_bytes: Option<usize>,
    pub max_response_bytes: Option<usize>,
    pub status: ApiInventoryStatus,
}

impl DeepView for LearnedRoute {
    type V = LearnedRouteView;

    open spec fn deep_view(&self) -> LearnedRouteView {
        LearnedRouteView {
            method: self.method@,
            normalized_path: self.normalized_path@,
            first_seen: self.first_seen,
            last_seen: self.last_seen,
            hits: self.hits,
            has_auth: self.has_auth,
            request_content_types: self.request_content_types.deep_view(),
            response_content_types: self.response_content_types.deep_view(),
            observed_status_codes: self.observed_status_codes.deep_view(),
            min_request_bytes: self.min_request_bytes,
            max_request_bytes: self.max_request_bytes,
            min_response_bytes: self.min_response_bytes,
            max_response_bytes: self.max_response_bytes,
            status: self.status,
        }
    }
}

impl Clone for LearnedRoute {
    fn clone(&self) -> (r: Self)
        ensures
            r.deep_view() == self.deep_view(),
    {
        let observed_status_codes = self.observed_status_codes.clone();
        assert(observed_status_codes.deep_view() =~= self.observed_status_codes.deep_view());
        LearnedRoute {
            method: self.method.clone(),
            normalized_path: self.normalized_path.clone(),
            first_seen: self.first_seen,
            last_seen: self.last_seen,
            hits: self.hits,
            has_auth: self.has_auth,
            request_content_types: text::clone_list(&self.request_content_types),
            response_content_types: text::clone_list(&self.response_content_types),
            observed_status_codes,
            min_request_bytes: self.min_request_bytes,
            max_request_bytes: self.max_request_bytes,
            min_response_bytes: self.min_response_bytes,
            max_response_bytes: self.max_response_bytes,
            status: self.status,
        }
    }
}

#[derive(Debug)]
pub struct ResponseContract {
    pub method: String,
    pub normalized_path: String,
    pub expected_status: u16,
    pub expected_content_type_prefix: String,
    pub required_headers: Vec<String>,
    pub approved_at: Timestamp,
    pub approved_by: String,
    pub note: Option<String>,
}

#[verifier::ext_equal]
pub struct ResponseContractView {
    pub method: Seq<char>,
    pub normalized_path: Seq<char>,
    pub expected_status: u16,
    pub expected_content_type_prefix: Seq<char>,
    pub required_headers: Seq<Seq<char>>,
    pub approved_at: Timestamp,
    pub approved_by: Seq<char>,
    pub note: Option<Seq<char>>,
}

impl DeepView for ResponseContract {
    type V = ResponseContractView;

    open spec fn deep_view(&self) -> ResponseContractView {
        ResponseContractView {
            method: self.method@,
            normalized_path: self.normalized_path@,
            expected_status: self.expected_status,
            expected_content_type_prefix: self.expected_content_type_prefix@,
            required_headers: self.required_headers.deep_view(),
            approved_at: self.approved_at,
            approved_by: self.approved_by@,
            note: self.note.deep_view(),
        }
    }
}

impl Clone for ResponseContract {
    fn clone(&self) -> (r: Self)
        ensures
            r.deep_view() == self.deep_view(),
    {
        ResponseContract {
            method: self.method.clone(),
            normalized_path: self.normalized_path.clone(),
            expected_status: self.expected_status,
            expected_content_type_prefix: self.expected_content_type_prefix.clone(),
            required_headers: text::clone_list(&self.required_headers),
            approved_at: self.approved_at,
            approved_by: self.approved_by.clone(),
            note: text::clone_option(&self.note),
        }
    }
}

#[derive(Debug)]
pub enum DecisionOutcome {
    Allow,
    Reject { status_code: u16, message: String },
}

#[verifier::ext_equal]
pub enum DecisionOutcomeView {
    Allow,
    Reject { status_code: u16, message: Seq<char> },
}

impl DeepView for DecisionOutcome {
    type V = DecisionOutcomeView;

    open spec fn deep_view(&self) -> DecisionOutcomeView {
        match self {
            DecisionOutcome::Allow => DecisionOutcomeView::Allow,
            DecisionOutcome::Reject { status_code, message } => DecisionOutcomeView::Reject {
                status_code: *status_code,
                message: message@,
            },
        }
    }
}

impl Clone for DecisionOutcome {
    fn clone(&self) -> (r: Self)
        ensures
            r == *self,
    {
        match self {
            DecisionOutcome::Allow => DecisionOutcome::Allow,
            DecisionOutcome::Reject { status_code, message } => DecisionOutcome::Reject {
                status_code: *status_code,
                message: message.clone(),
            },
        }
    }
}

impl DeepView for MitigationAction {
    type V = MitigationAction;

    open spec fn deep_view(&self) -> MitigationAction {
        *self
    }
}

/// The policy in force.
#[derive(Debug)]
pub struct LivePolicyState {
    pub version: u64,
    pub previous_version: Option<u64>,
    pub policy_mode: PolicyMode,
    pub global_rule_modes: RuleModes,
    pub route_overrides: Vec<RoutePolicyOverride>,
    pub route_rate_limits: Vec<RouteRateLimitOverride>,
    pub route_behavior_overrides: Vec<RouteBehaviorOverride>,
    pub detector_exceptions: Vec<DetectorException>,
    pub updated_at: Option<Timestamp>,
}

#[verifier::ext_equal]
pub struct LivePolicyStateView {
    pub version: u64,
    pub previous_version: Option<u64>,
    pub policy_mode: PolicyMode,
    pub global_rule_modes: Seq<(Seq<char>, RuleMode)>,
    pub route_overrides: Seq<RoutePolicyOverrideView>,
    pub route_rate_limits: Seq<RouteRateLimitOverrideView>,
    pub route_behavior_overrides: Seq<RouteBehaviorOverrideView>,
    pub detector_exceptions: Seq<DetectorExceptionView>,
    pub updated_at: Option<Timestamp>,
}

impl DeepView for LivePolicyState {
    type V = LivePolicyStateView;

    open spec fn deep_view(&self) -> LivePolicyStateView {
        LivePolicyStateView {
            version: self.version,
            previous_version: self.previous_version,
            policy_mode: self.policy_mode,
            global_rule_modes: self.global_rule_modes.deep_view(),
            route_overrides: self.route_overrides.deep_view(),
            route_rate_limits: self.route_rate_limits.deep_view(),
            route_behavior_overrides: self.route_behavior_overrides.deep_view(),
            detector_exceptions: self.detector_exceptions.deep_view(),
            updated_at: self.updated_at,
        }
    }
}

impl Clone for LivePolicyState {
    fn clone(&self) -> (r: Self)
        ensures
            r.deep_view() == self.deep_view(),
    {
        let route_overrides = self.route_overrides.clone();
        assert(route_overrides.deep_view() =~= self.route_overrides.deep_view());
        let route_rate_limits = self.route_rate_limits.clone();
        assert(route_rate_limits.deep_view() =~= self.route_rate_limits.deep_view());
        let route_behavior_overrides = self.route_behavior_overrides.clone();
        assert(route_behavior_overrides.deep_view() =~= self.route_behavior_overrides.deep_view());
        let detector_exceptions = self.detector_exceptions.clone();
        assert(detector_exceptions.deep_view() =~= self.detector_exceptions.deep_view());
        LivePolicyState {
            version: self.version,
            previous_version: self.previous_version,
            policy_mode: self.policy_mode,
            global_rule_modes: self.global_rule_modes.clone(),
            route_overrides,
            route_rate_limits,
            route_behavior_overrides,
            detector_exceptions,
            updated_at: self.updated_at,
        }
    }
}

/// A copy of the policy in force, taken at one point in time.
#[derive(Debug)]
pub struct LivePolicyExport {
    pub exported_at: Timestamp,
    pub version: u64,
    pub previous_version: Option<u64>,
    pub policy_mode: PolicyMode,
    pub global_rule_modes: RuleModes,
    pub route_overrides: Vec<RoutePolicyOverride>,
    pub route_rate_limits: Vec<RouteRateLimitOverride>,
    pub route_behavior_overrides: Vec<RouteBehaviorOverride>,
    pub detector_exceptions: Vec<DetectorException>,
}

#[verifier::ext_equal]
pub struct LivePolicyExportView {
    pub exported_at: Timestamp,
    pub version: u64,
    pub previous_version: Option<u64>,
    pub policy_mode: PolicyMode,
    pub global_rule_modes: Seq<(Seq<char>, RuleMode)>,
    pub route_overrides: Seq<RoutePolicyOverrideView>,
    pub route_rate_limits: Seq<RouteRateLimitOverrideView>,
    pub route_behavior_overrides: Seq<RouteBehaviorOverrideView>,
    pub detector_exceptions: Seq<DetectorExceptionView>,
}

impl DeepView for LivePolicyExport {
    type V = LivePolicyExportView;

    open spec fn deep_view(&self) -> LivePolicyExportView {
        LivePolicyExportView {
            exported_at: self.exported_at,
            version: self.version,
            previous_version: self.previous_version,
            policy_mode: self.policy_mode,
            global_rule_modes: self.global_rule_modes.deep_view(),
            route_overrides: self.route_overrides.deep_view(),
            route_rate_limits: self.route_rate_limits.deep_view(),
            route_behavior_overrides: self.route_behavior_overrides.deep_view(),
            detector_exceptions: self.detector_exceptions.deep_view(),
        }
    }
}

impl Clone for LivePolicyExport {
    fn clone(&self) -> (r: Self)
        ensures
            r.deep_view() == self.deep_view(),
    {
        let route_overrides = self.route_overrides.clone();
        assert(route_overrides.deep_view() =~= self.route_overrides.deep_view());
        let route_rate_limits = self.route_rate_limits.clone();
        assert(route_rate_limits.deep_view() =~= self.route_rate_limits.deep_view());
        let route_behavior_overrides = self.route_behavior_overrides.clone();
        assert(route_behavior_overrides.deep_view() =~= self.route_behavior_overrides.deep_view());
        let detector_exceptions = self.detector_exceptions.clone();
        assert(detector_exceptions.deep_view() =~= self.detector_exceptions.deep_view());
        LivePolicyExport {
            exported_at: self.exported_at,
            version: self.version,
            previous_version: self.previous_version,
            policy_mode: self.policy_mode,
            global_rule_modes: self.global_rule_modes.clone(),
            route_overrides,
            route_rate_limits,
            route_behavior_overrides,
            detector_exceptions,
        }
    }
}

#[derive(Debug)]
pub struct LivePolicyImportRequest {
    pub policy_mode: Option<PolicyMode>,
    pub global_rule_modes: RuleModes,
    pub route_overrides: Vec<RoutePolicyOverride>,
    pub route_rate_limits: Vec<RouteRateLimitOverride>,
    pub route_behavior_overrides: Vec<RouteBehaviorOverride>,
    pub detector_exceptions: Vec<DetectorException>,
}

/// Who a request is made by.
#[derive(Debug)]
pub enum PrincipalKey {
    TenantUser(String, String),
    JwtSub(String),
    ApiKeyHash(String),
    Ip(String),
}

#[verifier::ext_equal]
pub enum PrincipalKeyView {
    TenantUser(Seq<char>, Seq<char>),
    JwtSub(Seq<char>),
    ApiKeyHash(Seq<char>),
    Ip(Seq<char>),
}

impl DeepView for PrincipalKey {
    type V = PrincipalKeyView;

    open spec fn deep_view(&self) -> PrincipalKeyView {
        match self {
            PrincipalKey::TenantUser(a, b) => PrincipalKeyView::TenantUser(a@, b@),
            PrincipalKey::JwtSub(a) => PrincipalKeyView::JwtSub(a@),
            PrincipalKey::ApiKeyHash(a) => PrincipalKeyView::ApiKeyHash(a@),
            PrincipalKey::Ip(a) => PrincipalKeyView::Ip(a@),
        }
    }
}

/// The key under which a principal's requests are counted.
pub open spec fn rate_limit_key_of(p: PrincipalKeyView) -> Seq<char> {
    match p {
        PrincipalKeyView::TenantUser(tenant, user) => "tenant_user:"@ + tenant + ":"@ + user,
        PrincipalKeyView::JwtSub(sub) => "jwt_sub:"@ + sub,
        PrincipalKeyView::ApiKeyHash(hash) => "api_key:"@ + hash,
        PrincipalKeyView::Ip(ip) => "ip:"@ + ip,
    }
}

impl PrincipalKey {
    pub fn as_rate_limit_key(&self) -> (r: String)
        ensures
            r@ == rate_limit_key_of(self.deep_view()),
    {
        match self {
            PrincipalKey::TenantUser(tenant, user) => text::cat4(
                "tenant_user:",
                tenant.as_str(),
                ":",
                user.as_str(),
            ),
            PrincipalKey::JwtSub(sub) => text::cat2("jwt_sub:", sub.as_str()),
            PrincipalKey::ApiKeyHash(hash) => text::cat2("api_key:", hash.as_str()),
            PrincipalKey::Ip(ip) => text::cat2("ip:", ip.as_str()),
        }
    }
}

/// A request with what was worked out about it.
#[derive(Debug)]
pub struct EnrichedRequestContext {
    pub request: RequestContext,
    pub normalized_path: String,
    pub normalized_route: String,
    pub principal: PrincipalKey,
    pub tenant_id: Option<String>,
    pub user_id: Option<String>,
    pub jwt_sub: Option<String>,
    pub api_key_hash: Option<String>,
    pub sensitivity: RouteSensitivity,
    pub required_scopes: Vec<String>,
    pub schema_mode: SpecUnknownRouteMode,
    pub object_id_candidates: Vec<String>,
    pub learned_route_hits: u64,
    pub request_content_type: Option<String>,
    pub request_size_bytes: usize,
}

#[derive(Debug)]
pub struct SchemaValidationResult {
    pub allow: bool,
    pub finding: Option<Finding>,
    pub matched_route: Option<String>,
}

#[verifier::ext_equal]
pub struct SchemaValidationResultView {
    pub allow: bool,
    pub finding: Option<FindingView>,
    pub matched_route: Option<Seq<char>>,
}

impl DeepView for SchemaValidationResult {
    type V = SchemaValidationResultView;

    open spec fn deep_view(&self) -> SchemaValidationResultView {
        SchemaValidationResultView {
            allow: self.allow,
            finding: self.finding.deep_view(),
            matched_route: self.matched_route.deep_view(),
        }
    }
}

/// The answer to an administrator's request.
#[derive(Debug)]
pub struct AdminResponse<T> {
    pub ok: bool,
    pub data: Option<T>,
    pub error: Option<String>,
}

pub fn ok<T>(data: T) -> (r: AdminResponse<T>)
    ensures
        r == (AdminResponse { ok: true, data: Some(data), error: None }),
{
    AdminResponse { ok: true, data: Some(data), error: None }
}

pub fn err<T>(message: String) -> (r: AdminResponse<T>)
    ensures
        r == (AdminResponse::<T> { ok: false, data: None, error: Some(message) }),
{
    AdminResponse { ok: false, data: None, error: Some(message) }
}

/// The weight of a severity in a finding's score.
pub open spec fn score_weight(severity: Severity) -> int {
    match severity {
        Severity::Low => 20,
        Severity::Medium => 45,
        Severity::High => 70,
        Severity::Critical => 90,
    }
}

/// A confidence held to the range from zero to one.
pub open spec fn clamped_confidence(confidence: i64) -> int {
    if confidence < 0 {
        0
    } else if confidence > UNIT {
        UNIT as int
    } else {
        confidence as int
    }
}

pub open spec fn score_of(severity: Severity, confidence: i64) -> int {
    score_weight(severity) * clamped_confidence(confidence)
}

/// A finding's score lies between zero and one hundred.
pub proof fn law_score_range(severity: Severity, confidence: i64)
    ensures
        0 <= score_of(severity, confidence) <= 90 * UNIT,
        0 <= score_of(severity, confidence) <= 100 * UNIT,
{
    let c = clamped_confidence(confidence);
    let w = score_weight(severity);
    assert(0 <= w * c <= 90 * 1_000_000) by (nonlinear_arith)
        requires
            0 <= w <= 90,
            0 <= c <= 1_000_000,
    ;
}

/// The category of an attack class.
pub open spec fn category_of(class: AttackClass) -> Seq<char> {
    match class {
        AttackClass::SqlInjection
        | AttackClass::Xss
        | AttackClass::CommandInjection
        | AttackClass::PathTraversal => "injection"@,
        AttackClass::Ssrf => "ssrf"@,
        AttackClass::BrokenAuthentication
        | AttackClass::JwtAbuse
        | AttackClass::AuthAbuse => "authentication"@,
        AttackClass::ObjectEnumeration
        | AttackClass::TenantBoundaryViolation => "object_access"@,
        AttackClass::SchemaViolation => "schema"@,
        AttackClass::ShadowApi | AttackClass::ApiInventory => "api_inventory"@,
        AttackClass::BehaviorAnomaly
        | AttackClass::RateLimitExceeded
        | AttackClass::BruteForce => "behavior"@,
        AttackClass::RequestSmuggling | AttackClass::HeaderInjection => "protocol"@,
        AttackClass::MissingSecurityHeaders
        | AttackClass::SecurityMisconfiguration => "configuration"@,
        AttackClass::ResponseLeak => "response_contract"@,
        AttackClass::ResourceAbuse => "resource_consumption"@,
        AttackClass::PayloadEvasion => "evasion"@,
        AttackClass::MethodAbuse => "method_abuse"@,
    }
}

impl Finding {
    pub fn detector_id(&self) -> (r: &str)
        ensures
            r@ == self.rule_id@,
    {
        self.rule_id.as_str()
    }

    pub fn category(&self) -> (r: &'static str)
        ensures
            r@ == category_of(self.attack_class),
    {
        match self.attack_class {
            AttackClass::SqlInjection
            | AttackClass::Xss
            | AttackClass::CommandInjection
            | AttackClass::PathTraversal => "injection",
            AttackClass::Ssrf => "ssrf",
            AttackClass::BrokenAuthentication
            | AttackClass::JwtAbuse
            | AttackClass::AuthAbuse => "authentication",
            AttackClass::ObjectEnumeration
            | AttackClass::TenantBoundaryViolation => "object_access",
            AttackClass::SchemaViolation => "schema",
            AttackClass::ShadowApi | AttackClass::ApiInventory => "api_inventory",
            AttackClass::BehaviorAnomaly
            | AttackClass::RateLimitExceeded
            | AttackClass::BruteForce => "behavior",
            AttackClass::RequestSmuggling | AttackClass::HeaderInjection => "protocol",
            AttackClass::MissingSecurityHeaders
            | AttackClass::SecurityMisconfiguration => "configuration",
            AttackClass::ResponseLeak => "response_contract",
            AttackClass::ResourceAbuse => "resource_consumption",
            AttackClass::PayloadEvasion => "evasion",
            AttackClass::MethodAbuse => "method_abuse",
        }
    }

    /// The weight of the severity times the confidence, in fixed-point units.
    pub fn score(&self) -> (r: i64)
        ensures
            r == score_of(self.severity, self.confidence),
    {
        let weight: i64 = match self.severity {
            Severity::Low => 20,
            Severity::Medium => 45,
            Severity::High => 70,
            Severity::Critical => 90,
        };
        let confidence: i64 = if self.confidence < 0 {
            0
        } else if self.confidence > UNIT {
            UNIT
        } else {
            self.confidence
        };
        proof {
            law_score_range(self.severity, self.confidence);
        }
        weight * confidence
    }
}

/// A finding with one piece of evidence.
pub open spec fn finding_of(
    rule_id: Seq<char>,
    attack_class: AttackClass,
    severity: Severity,
    confidence: i64,
    message: Seq<char>,
    location: Seq<char>,
    value_preview: Seq<char>,
    mode: RuleMode,
) -> FindingView {
    FindingView {
        rule_id,
        attack_class,
        severity,
        confidence,
        message,
        evidence: seq![FindingEvidenceView { location, value_preview }],
        mode,
    }
}

pub fn make_finding(
    rule_id: &str,
    attack_class: AttackClass,
    severity: Severity,
    confidence: i64,
    message: &str,
    location: &str,
    value_preview: &str,
    mode: RuleMode,
) -> (r: Finding)
    ensures
        r.deep_view() == finding_of(
            rule_id@,
            attack_class,
            severity,
            confidence,
            message@,
            location@,
            value_preview@,
            mode,
        ),
{
    let mut evidence: Vec<FindingEvidence> = Vec::new();
    evidence.push(
        FindingEvidence {
            location: location.to_string(),
            value_preview: value_preview.to_string(),
        },
    );
    let r = Finding {
        rule_id: rule_id.to_string(),
        attack_class,
        severity,
        confidence,
        message: message.to_string(),
        evidence,
        mode,
    };
    assert(r.deep_view().evidence =~= seq![
        FindingEvidenceView { location: location@, value_preview: value_preview@ },
    ]);
    r
}

/// Adds a piece of evidence to a finding.
pub fn add_evidence(f: &mut Finding, location: &str, value_preview: &str)
    ensures
        final(f).deep_view() == (FindingView {
            evidence: old(f).deep_view().evidence.push(
                FindingEvidenceView { location: location@, value_preview: value_preview@ },
            ),
            ..old(f).deep_view()
        }),
{
    f.evidence.push(
        FindingEvidence {
            location: location.to_string(),
            value_preview: value_preview.to_string(),
        },
    );
    assert(f.deep_view().evidence =~= old(f).deep_view().evidence.push(
        FindingEvidenceView { location: location@, value_preview: value_preview@ },
    ));
}

/// A copy of a list of findings.
pub fn clone_findings(v: &Vec<Finding>) -> (r: Vec<Finding>)
    ensures
        r.deep_view() == v.deep_view(),
{
    let r = v.clone();
    assert(r.deep_view() =~= v.deep_view());
    r
}

/// Appends a finding to a list of findings.
pub fn push_finding(v: &mut Vec<Finding>, f: Finding)
    ensures
        final(v).deep_view() == old(v).deep_view().push(f.deep_view()),
        final(v)@ == old(v)@.push(f),
{
    v.push(f);
    assert(v.deep_view() =~= old(v).deep_view().push(f.deep_view()));
}

/// Appends all findings of one list to another.
pub fn extend_findings(v: &mut Vec<Finding>, more: Vec<Finding>)
    ensures
        final(v).deep_view() == old(v).deep_view() + more.deep_view(),
{
    let ghost before = v.deep_view();
    let ghost added = more.deep_view();
    let mut more = more;
    v.append(&mut more);
    assert(v.deep_view() =~= before + added);
}

pub fn default_policy_version() -> (r: u64)
    ensures
        r == 1,
{
    1
}

impl LivePolicyState {
    /// The first version of the policy, as configured.
    pub fn from_config(config: &AppConfig, now: Timestamp) -> (r: Self)
        ensures
            r.deep_view() == (LivePolicyStateView {
                version: 1,
                previous_version: None,
                policy_mode: config.security.policy_mode,
                global_rule_modes: config.security.rule_modes.deep_view(),
                route_overrides: config.security.route_overrides.deep_view(),
                route_rate_limits: config.security.route_rate_limits.deep_view(),
                route_behavior_overrides: config.security.route_behavior_overrides.deep_view(),
                detector_exceptions: config.security.detector_exceptions.deep_view(),
                updated_at: Some(now),
            }),
    {
        let s = &config.security;
        let route_overrides = s.route_overrides.clone();
        let route_rate_limits = s.route_rate_limits.clone();
        let route_behavior_overrides = s.route_behavior_overrides.clone();
        let detector_exceptions = s.detector_exceptions.clone();
        assert(route_overrides.deep_view() =~= s.route_overrides.deep_view());
        assert(route_rate_limits.deep_view() =~= s.route_rate_limits.deep_view());
        assert(route_behavior_overrides.deep_view() =~= s.route_behavior_overrides.deep_view());
        assert(detector_exceptions.deep_view() =~= s.detector_exceptions.deep_view());
        LivePolicyState {
            version: default_policy_version(),
            previous_version: None,
            policy_mode: s.policy_mode,
            global_rule_modes: s.rule_modes.clone(),
            route_overrides,
            route_rate_limits,
            route_behavior_overrides,
            detector_exceptions,
            updated_at: Some(now),
        }
    }
}

/// The mode that the first override for the path gives to the rule, if one does.
pub open spec fn override_mode(
    overrides: Seq<RoutePolicyOverride>,
    path: Seq<char>,
    rule_id: Seq<char>,
) -> Option<RuleMode>
    decreases overrides.len(),
{
    if overrides.len() == 0 {
        None
    } else if text::has_prefix(path, overrides[0].path_prefix@) && table::at(
        overrides[0].rule_modes.deep_view(),
        rule_id,
    ) is Some {
        table::at(overrides[0].rule_modes.deep_view(), rule_id)
    } else {
        override_mode(overrides.drop_first(), path, rule_id)
    }
}

/// The mode of a rule on a path: that of the first override which sets it, else the global one,
/// else detection only.
pub open spec fn rule_mode_of(
    policy: LivePolicyState,
    path: Seq<char>,
    rule_id: Seq<char>,
) -> RuleMode {
    match override_mode(policy.route_overrides@, path, rule_id) {
        Some(mode) => mode,
        None => match table::at(policy.global_rule_modes.deep_view(), rule_id) {
            Some(mode) => mode,
            None => RuleMode::DetectOnly,
        },
    }
}

pub fn resolve_rule_mode(policy: &LivePolicyState, path: &str, rule_id: &str) -> (r: RuleMode)
    ensures
        r == rule_mode_of(*policy, path@, rule_id@),
{
    let overrides = &policy.route_overrides;
    let mut i: usize = 0;
    assert(overrides@.skip(0) =~= overrides@);
    while i < overrides.len()
        invariant
            i <= overrides@.len(),
            overrides@ == policy.route_overrides@,
            override_mode(overrides@, path@, rule_id@) == override_mode(
                overrides@.skip(i as int),
                path@,
                rule_id@,
            ),
        decreases overrides@.len() - i,
    {
        assert(overrides@.skip(i as int)[0] == overrides@[i as int]);
        if text::starts_with(path, overrides[i].path_prefix.as_str()) {
            if let Some(mode) = overrides[i].rule_modes.get(rule_id) {
                return *mode;
            }
        }
        assert(overrides@.skip(i as int).drop_first() =~= overrides@.skip(i + 1));
        i = i + 1;
    }
    match policy.global_rule_modes.get(rule_id) {
        Some(mode) => *mode,
        None => RuleMode::DetectOnly,
    }
}

/// The first rate limit whose prefix the path starts with.
pub open spec fn route_limit(
    limits: Seq<RouteRateLimitOverride>,
    path: Seq<char>,
) -> Option<RouteRateLimitOverride>
    decreases limits.len(),
{
    if limits.len() == 0 {
        None
    } else if text::has_prefix(path, limits[0].path_prefix@) {
        Some(limits[0])
    } else {
        route_limit(limits.drop_first(), path)
    }
}

/// The bucket, the number of requests and the window in seconds that apply to a path.
pub open spec fn rate_limit_of(
    policy: LivePolicyState,
    config: AppConfig,
    path: Seq<char>,
) -> (Seq<char>, u64, u64) {
    match route_limit(policy.route_rate_limits@, path) {
        Some(l) => (l.path_prefix@, l.requests_per_window, l.window_secs),
        None => (
            "default"@,
            config.security.rate_limit.requests_per_window,
            config.security.rate_limit.window_secs,
        ),
    }
}

pub fn resolve_rate_limit_for_path(
    policy: &LivePolicyState,
    config: &AppConfig,
    path: &str,
) -> (r: (String, u64, u64))
    ensures
        (r.0@, r.1, r.2) == rate_limit_of(*policy, *config, path@),
{
    let limits = &policy.route_rate_limits;
    let mut i: usize = 0;
    assert(limits@.skip(0) =~= limits@);
    while i < limits.len()
        invariant
            i <= limits@.len(),
            limits@ == policy.route_rate_limits@,
            route_limit(limits@, path@) == route_limit(limits@.skip(i as int), path@),
        decreases limits@.len() - i,
    {
        assert(limits@.skip(i as int)[0] == limits@[i as int]);
        if text::starts_with(path, limits[i].path_prefix.as_str()) {
            return (
                limits[i].path_prefix.clone(),
                limits[i].requests_per_window,
                limits[i].window_secs,
            );
        }
        assert(limits@.skip(i as int).drop_first() =~= limits@.skip(i + 1));
        i = i + 1;
    }
    (
        "default".to_string(),
        config.security.rate_limit.requests_per_window,
        config.security.rate_limit.window_secs,
    )
}

#[derive(Debug)]
pub struct ApprovedShadowRoute {
    pub method: String,
    pub normalized_path: String,
    pub approved_at: Timestamp,
    pub approved_by: String,
    pub note: Option<String>,
}

#[verifier::ext_equal]
pub struct ApprovedShadowRouteView {
    pub method: Seq<char>,
    pub normalized_path: Seq<char>,
    pub approved_at: Timestamp,
    pub approved_by: Seq<char>,
    pub note: Option<Seq<char>>,
}

impl DeepView for ApprovedShadowRoute {
    type V = ApprovedShadowRouteView;

    open spec fn deep_view(&self) -> ApprovedShadowRouteView {
        ApprovedShadowRouteView {
            method: self.method@,
            normalized_path: self.normalized_path@,
            approved_at: self.approved_at,
            approved_by: self.approved_by@,
            note: self.note.deep_view(),
        }
    }
}

impl Clone for ApprovedShadowRoute {
    fn clone(&self) -> (r: Self)
        ensures
            r == *self,
    {
        ApprovedShadowRoute {
            method: self.method.clone(),
            normalized_path: self.normalized_path.clone(),
            approved_at: self.approved_at,
            approved_by: self.approved_by.clone(),
            note: text::clone_option(&self.note),
        }
    }
}

#[derive(Debug)]
pub struct PromotedSpecRoute {
    pub method: String,
    pub normalized_path: String,
    pub promoted_at: Timestamp,
    pub promoted_by: String,
    pub source: String,
    pub note: Option<String>,
}

#[verifier::ext_equal]
pub struct PromotedSpecRouteView {
    pub method: Seq<char>,
    pub normalized_path: Seq<char>,
    pub promoted_at: Timestamp,
    pub promoted_by: Seq<char>,
    pub source: Seq<char>,
    pub note: Option<Seq<char>>,
}

impl DeepView for PromotedSpecRoute {
    type V = PromotedSpecRouteView;

    open spec fn deep_view(&self) -> PromotedSpecRouteView {
        PromotedSpecRouteView {
            method: self.method@,
            normalized_path: self.normalized_path@,
            promoted_at: self.promoted_at,
            promoted_by: self.promoted_by@,
            source: self.source@,
            note: self.note.deep_view(),
        }
    }
}

impl Clone for PromotedSpecRoute {
    fn clone(&self) -> (r: Self)
        ensures
            r == *self,
    {
        PromotedSpecRoute {
            method: self.method.clone(),
            normalized_path: self.normalized_path.clone(),
            promoted_at: self.promoted_at,
            promoted_by: self.promoted_by.clone(),
            source: self.source.clone(),
            note: text::clone_option(&self.note),
        }
    }
}

#[derive(Debug)]
pub struct ManagedSpecRoute {
    pub method: String,
    pub normalized_path: String,
    pub managed_at: Timestamp,
    pub managed_by: String,
    pub auth_required: bool,
    pub note: Option<String>,
}

#[verifier::ext_equal]
pub struct ManagedSpecRouteView {
    pub method: Seq<char>,
    pub normalized_path: Seq<char>,
    pub managed_at: Timestamp,
    pub managed_by: Seq<char>,
    pub auth_required: bool,
    pub note: Option<Seq<char>>,
}

impl DeepView for ManagedSpecRoute {
    type V = ManagedSpecRouteView;

    open spec fn deep_view(&self) -> ManagedSpecRouteView {
        ManagedSpecRouteView {
            method: self.method@,
            normalized_path: self.normalized_path@,
            managed_at: self.managed_at,
            managed_by: self.managed_by@,
            auth_required: self.auth_required,
            note: self.note.deep_view(),
        }
    }
}

impl Clone for ManagedSpecRoute {
    fn clone(&self) -> (r: Self)
        ensures
            r == *self,
    {
        ManagedSpecRoute {
            method: self.method.clone(),
            normalized_path: self.normalized_path.clone(),
            managed_at: self.managed_at,
            managed_by: self.managed_by.clone(),
            auth_required: self.auth_required,
            note: text::clone_option(&self.note),
        }
    }
}

/// The key of a route: its method in upper case and its path.
pub open spec fn route_key_of(method: Seq<char>, path: Seq<char>) -> Seq<char> {
    text::upper_of(method) + ":"@ + path
}

pub fn route_key(method: &str, path: &str) -> (r: String)
    ensures
        r@ == route_key_of(method@, path@),
{
    let upper = text::to_ascii_uppercase(method);
    text::cat3(upper.as_str(), ":", path)
}

} // verus!
