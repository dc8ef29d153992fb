//! Delivery of security events to the control plane.

use crate::config;
use crate::config::{ConfigError, ControlPlaneConfig};
use crate::outside;
use crate::rate_limit;
use crate::text;
use crate::types;
use crate::types::{
    AttackClass, DecisionOutcome, DecisionOutcomeView, Finding, FindingView, MitigationAction,
    SecurityEvent, SecurityEventView, Severity, Timestamp,
};
use tokio::sync::mpsc::{Receiver, Sender};
use vstd::prelude::*;

verus! {

/// How often a delivery is tried again.
pub const MAX_RETRIES: usize = 3;

/// The delay before the first retry, in milliseconds.
pub const BASE_BACKOFF_MS: u64 = 100;

/// The longest delay before a retry, in milliseconds, without jitter.
pub const MAX_BACKOFF_MS: u64 = 2_000;

/// What is delivered besides the main facts of an event.
#[derive(Debug)]
pub struct SecurityEventMetadata {
    pub rule_ids: Vec<String>,
    pub detector_ids: Vec<String>,
    pub attack_classes: Vec<String>,
    pub categories: Vec<String>,
    pub scores: Vec<i64>,
    pub normalized_route: Option<String>,
    pub finding_count: usize,
    pub risk_score: i128,
    pub outcome: String,
    pub action_count: usize,
}

#[verifier::ext_equal]
pub struct SecurityEventMetadataView {
    pub rule_ids: Seq<Seq<char>>,
    pub detector_ids: Seq<Seq<char>>,
    pub attack_classes: Seq<Seq<char>>,
    pub categories: Seq<Seq<char>>,
    pub scores: Seq<i64>,
    pub normalized_route: Option<Seq<char>>,
    pub finding_count: usize,
    pub risk_score: i128,
    pub outcome: Seq<char>,
    pub action_count: usize,
}

impl DeepView for SecurityEventMetadata {
    type V = SecurityEventMetadataView;

    open spec fn deep_view(&self) -> SecurityEventMetadataView {
        SecurityEventMetadataView {
            rule_ids: self.rule_ids.deep_view(),
            detector_ids: self.detector_ids.deep_view(),
            attack_classes: self.attack_classes.deep_view(),
            categories: self.categories.deep_view(),
            scores: self.scores@,
            normalized_route: self.normalized_route.deep_view(),
            finding_count: self.finding_count,
            risk_score: self.risk_score,
            outcome: self.outcome@,
            action_count: self.action_count,
        }
    }
}

/// An event as it is delivered. Confidences and scores are in fixed-point units.
#[derive(Debug)]
pub struct SecurityEventIngestPayload {
    pub firewall_instance_id: String,
    pub event_type: String,
    pub attack_type: String,
    pub severity: String,
    pub source_ip: Option<String>,
    pub request_path: Option<String>,
    pub http_method: Option<String>,
    pub user_agent: Option<String>,
    pub country: Option<String>,
    pub confidence: Option<i64>,
    pub detector_id: Option<String>,
    pub detector_ids: Vec<String>,
    pub score: Option<i64>,
    pub api_route_id: Option<String>,
    pub anomaly_type: Option<String>,
    pub action_taken: String,
    pub request_id: Option<String>,
    pub raw_metadata: SecurityEventMetadata,
    pub occurred_at: Timestamp,
}

#[verifier::ext_equal]
pub struct SecurityEventIngestPayloadView {
    pub firewall_instance_id: Seq<char>,
    pub event_type: Seq<char>,
    pub attack_type: Seq<char>,
    pub severity: Seq<char>,
    pub source_ip: Option<Seq<char>>,
    pub request_path: Option<Seq<char>>,
    pub http_method: Option<Seq<char>>,
    pub user_agent: Option<Seq<char>>,
    pub country: Option<Seq<char>>,
    pub confidence: Option<i64>,
    pub detector_id: Option<Seq<char>>,
    pub detector_ids: Seq<Seq<char>>,
    pub score: Option<i64>,
    pub api_route_id: Option<Seq<char>>,
    pub anomaly_type: Option<Seq<char>>,
    pub action_taken: Seq<char>,
    pub request_id: Option<Seq<char>>,
    pub raw_metadata: SecurityEventMetadataView,
    pub occurred_at: Timestamp,
}

impl DeepView for SecurityEventIngestPayload {
    type V = SecurityEventIngestPayloadView;

    open spec fn deep_view(&self) -> SecurityEventIngestPayloadView {
        SecurityEventIngestPayloadView {
            firewall_instance_id: self.firewall_instance_id@,
            event_type: self.event_type@,
            attack_type: self.attack_type@,
            severity: self.severity@,
            source_ip: self.source_ip.deep_view(),
            request_path: self.request_path.deep_view(),
            http_method: self.http_method.deep_view(),
            user_agent: self.user_agent.deep_view(),
            country: self.country.deep_view(),
            confidence: self.confidence,
            detector_id: self.detector_id.deep_view(),
            detector_ids: self.detector_ids.deep_view(),
            score: self.score,
            api_route_id: self.api_route_id.deep_view(),
            anomaly_type: self.anomaly_type.deep_view(),
            action_taken: self.action_taken@,
            request_id: self.request_id.deep_view(),
            raw_metadata: self.raw_metadata.deep_view(),
            occurred_at: self.occurred_at,
        }
    }
}

pub open spec fn rank_of(severity: Severity) -> u8 {
    match severity {
        Severity::Low => 1,
        Severity::Medium => 2,
        Severity::High => 3,
        Severity::Critical => 4,
    }
}

pub fn severity_rank(severity: &Severity) -> (r: u8)
    ensures
        r == rank_of(*severity),
{
    match severity {
        Severity::Low => 1,
        Severity::Medium => 2,
        Severity::High => 3,
        Severity::Critical => 4,
    }
}

pub open spec fn rank_name(rank: u8) -> Seq<char> {
    if rank == 4 {
        "critical"@
    } else if rank == 3 {
        "high"@
    } else if rank == 2 {
        "medium"@
    } else {
        "low"@
    }
}

pub fn rank_to_severity(rank: u8) -> (r: &'static str)
    ensures
        r@ == rank_name(rank),
{
    match rank {
        4 => "critical",
        3 => "high",
        2 => "medium",
        _ => "low",
    }
}

/// The position of the last of the gravest findings, or -1 where there is none.
pub open spec fn gravest_index(findings: Seq<FindingView>) -> int
    decreases findings.len(),
{
    if findings.len() == 0 {
        -1
    } else {
        let best = gravest_index(findings.drop_last());
        if best < 0 || rank_of(findings.last().severity) >= rank_of(findings[best].severity) {
            findings.len() - 1
        } else {
            best
        }
    }
}

/// The position of the last of the findings with the highest score, or -1 where there is none.
pub open spec fn primary_index(findings: Seq<FindingView>) -> int
    decreases findings.len(),
{
    if findings.len() == 0 {
        -1
    } else {
        let best = primary_index(findings.drop_last());
        if best < 0 || types::score_of(findings.last().severity, findings.last().confidence)
            >= types::score_of(findings[best].severity, findings[best].confidence) {
            findings.len() - 1
        } else {
            best
        }
    }
}

/// The highest confidence of some findings.
pub open spec fn top_confidence(findings: Seq<FindingView>) -> Option<i64>
    decreases findings.len(),
{
    if findings.len() == 0 {
        None
    } else {
        match top_confidence(findings.drop_last()) {
            Some(c) => if c >= findings.last().confidence {
                Some(c)
            } else {
                Some(findings.last().confidence)
            },
            None => Some(findings.last().confidence),
        }
    }
}

proof fn lemma_index_range(findings: Seq<FindingView>)
    ensures
        -1 <= gravest_index(findings) < findings.len(),
        -1 <= primary_index(findings) < findings.len(),
        findings.len() > 0 ==> gravest_index(findings) >= 0 && primary_index(findings) >= 0,
    decreases findings.len(),
{
    if findings.len() > 0 {
        lemma_index_range(findings.drop_last());
    }
}

/// No finding is graver, or has a higher score, than the one that is picked for it.
pub proof fn law_picked_findings(findings: Seq<FindingView>)
    requires
        findings.len() > 0,
    ensures
        0 <= gravest_index(findings) < findings.len(),
        0 <= primary_index(findings) < findings.len(),
        forall|i: int|
            0 <= i < findings.len() ==> rank_of((#[trigger] findings[i]).severity) <= rank_of(
                findings[gravest_index(findings)].severity,
            ),
        forall|i: int|
            0 <= i < findings.len() ==> types::score_of(
                (#[trigger] findings[i]).severity,
                findings[i].confidence,
            ) <= types::score_of(
                findings[primary_index(findings)].severity,
                findings[primary_index(findings)].confidence,
            ),
    decreases findings.len(),
{
    lemma_index_range(findings);
    let d = findings.drop_last();
    if d.len() > 0 {
        law_picked_findings(d);
        assert forall|i: int| 0 <= i < findings.len() implies rank_of(
            (#[trigger] findings[i]).severity,
        ) <= rank_of(findings[gravest_index(findings)].severity) by {
            if i < d.len() {
                assert(d[i] == findings[i]);
            }
        }
        assert forall|i: int| 0 <= i < findings.len() implies types::score_of(
            (#[trigger] findings[i]).severity,
            findings[i].confidence,
        ) <= types::score_of(
            findings[primary_index(findings)].severity,
            findings[primary_index(findings)].confidence,
        ) by {
            if i < d.len() {
                assert(d[i] == findings[i]);
            }
        }
    }
}

/// The severity of the gravest finding.
pub open spec fn highest_severity_of(findings: Seq<FindingView>) -> Seq<char> {
    if findings.len() == 0 {
        "low"@
    } else {
        rank_name(rank_of(findings[gravest_index(findings)].severity))
    }
}

pub open spec fn class_name(class: AttackClass) -> Seq<char> {
    match class {
        AttackClass::SqlInjection => "sql_injection"@,
        AttackClass::Xss => "xss"@,
        AttackClass::CommandInjection => "command_injection"@,
        AttackClass::PathTraversal => "path_traversal"@,
        AttackClass::HeaderInjection => "header_injection"@,
        AttackClass::RequestSmuggling => "request_smuggling"@,
        AttackClass::Ssrf => "ssrf"@,
        AttackClass::BrokenAuthentication => "credential_attack"@,
        AttackClass::BruteForce => "credential_attack"@,
        AttackClass::RateLimitExceeded => "rate_limit_exceeded"@,
        AttackClass::MethodAbuse => "method_abuse"@,
        AttackClass::PayloadEvasion => "payload_evasion"@,
        AttackClass::MissingSecurityHeaders => "missing_security_headers"@,
        AttackClass::SchemaViolation => "schema_violation"@,
        AttackClass::JwtAbuse => "credential_attack"@,
        AttackClass::ObjectEnumeration => "object_enumeration"@,
        AttackClass::BehaviorAnomaly => "behavior_anomaly"@,
        AttackClass::ResponseLeak => "response_leak"@,
        AttackClass::ShadowApi => "shadow_api"@,
        AttackClass::TenantBoundaryViolation => "tenant_boundary_violation"@,
        AttackClass::ApiInventory => "api_inventory"@,
        AttackClass::AuthAbuse => "credential_attack"@,
        AttackClass::ResourceAbuse => "resource_abuse"@,
        AttackClass::SecurityMisconfiguration => "security_misconfiguration"@,
    }
}

pub fn attack_class_name(class: &AttackClass) -> (r: String)
    ensures
        r@ == class_name(*class),
{
    let name = match class {
        AttackClass::SqlInjection => "sql_injection",
        AttackClass::Xss => "xss",
        AttackClass::CommandInjection => "command_injection",
        AttackClass::PathTraversal => "path_traversal",
        AttackClass::HeaderInjection => "header_injection",
        AttackClass::RequestSmuggling => "request_smuggling",
        AttackClass::Ssrf => "ssrf",
        AttackClass::BrokenAuthentication => "credential_attack",
        AttackClass::BruteForce => "credential_attack",
        AttackClass::RateLimitExceeded => "rate_limit_exceeded",
        AttackClass::MethodAbuse => "method_abuse",
        AttackClass::PayloadEvasion => "payload_evasion",
        AttackClass::MissingSecurityHeaders => "missing_security_headers",
        AttackClass::SchemaViolation => "schema_violation",
        AttackClass::JwtAbuse => "credential_attack",
        AttackClass::ObjectEnumeration => "object_enumeration",
        AttackClass::BehaviorAnomaly => "behavior_anomaly",
        AttackClass::ResponseLeak => "response_leak",
        AttackClass::ShadowApi => "shadow_api",
        AttackClass::TenantBoundaryViolation => "tenant_boundary_violation",
        AttackClass::ApiInventory => "api_inventory",
        AttackClass::AuthAbuse => "credential_attack",
        AttackClass::ResourceAbuse => "resource_abuse",
        AttackClass::SecurityMisconfiguration => "security_misconfiguration",
    };
    name.to_string()
}

/// The attack class of the gravest finding.
pub open spec fn primary_attack_of(findings: Seq<FindingView>) -> Seq<char> {
    if findings.len() == 0 {
        "unknown"@
    } else {
        class_name(findings[gravest_index(findings)].attack_class)
    }
}

pub open spec fn throttles(actions: Seq<MitigationAction>) -> bool {
    exists|i: int| 0 <= i < actions.len() && (#[trigger] actions[i]) is ThrottleSource
}

/// What was done with the request.
pub open spec fn action_name(
    outcome: DecisionOutcomeView,
    actions: Seq<MitigationAction>,
) -> Seq<char> {
    match outcome {
        DecisionOutcomeView::Reject { .. } => "blocked"@,
        DecisionOutcomeView::Allow => if throttles(actions) {
            "rate_limited"@
        } else {
            "allowed"@
        },
    }
}

fn action_taken(event: &SecurityEvent) -> (r: String)
    ensures
        r@ == action_name(event.decision.outcome.deep_view(), event.decision.actions@),
{
    match &event.decision.outcome {
        DecisionOutcome::Reject { .. } => "blocked".to_string(),
        DecisionOutcome::Allow => {
            let actions = &event.decision.actions;
            let mut i: usize = 0;
            while i < actions.len()
                invariant
                    i <= actions@.len(),
                    actions@ == event.decision.actions@,
                    event.decision.outcome is Allow,
                    forall|j: int| 0 <= j < i ==> !((#[trigger] actions@[j]) is ThrottleSource),
                decreases actions@.len() - i,
            {
                if let MitigationAction::ThrottleSource { .. } = actions[i] {
                    assert(actions@[i as int] is ThrottleSource);
                    return "rate_limited".to_string();
                }
                i = i + 1;
            }
            "allowed".to_string()
        },
    }
}

pub open spec fn outcome_text(outcome: DecisionOutcomeView) -> Seq<char> {
    match outcome {
        DecisionOutcomeView::Allow => "allow"@,
        DecisionOutcomeView::Reject { status_code, .. } => "reject:"@ + text::decimal_of(
            status_code as nat,
        ),
    }
}

pub fn outcome_name(outcome: &DecisionOutcome) -> (r: String)
    ensures
        r@ == outcome_text(outcome.deep_view()),
{
    match outcome {
        DecisionOutcome::Allow => "allow".to_string(),
        DecisionOutcome::Reject { status_code, .. } => {
            let code = text::decimal(*status_code as u128);
            text::cat2("reject:", code.as_str())
        },
    }
}

pub open spec fn rule_ids_of(findings: Seq<FindingView>) -> Seq<Seq<char>> {
    findings.map_values(|f: FindingView| f.rule_id)
}

pub open spec fn classes_of(findings: Seq<FindingView>) -> Seq<Seq<char>> {
    findings.map_values(|f: FindingView| class_name(f.attack_class))
}

pub open spec fn categories_of(findings: Seq<FindingView>) -> Seq<Seq<char>> {
    findings.map_values(|f: FindingView| types::category_of(f.attack_class))
}

pub open spec fn scores_of(findings: Seq<FindingView>) -> Seq<i64> {
    findings.map_values(|f: FindingView| types::score_of(f.severity, f.confidence) as i64)
}

pub open spec fn metadata_of(event: SecurityEventView) -> SecurityEventMetadataView {
    SecurityEventMetadataView {
        rule_ids: rule_ids_of(event.findings),
        detector_ids: rule_ids_of(event.findings),
        attack_classes: classes_of(event.findings),
        categories: categories_of(event.findings),
        scores: scores_of(event.findings),
        normalized_route: event.normalized_route,
        finding_count: event.findings.len() as usize,
        risk_score: event.decision.risk_score,
        outcome: outcome_text(event.decision.outcome),
        action_count: event.decision.actions.len() as usize,
    }
}

/// What is delivered of an event.
pub open spec fn payload_of(
    event: SecurityEventView,
    firewall_instance_id: Seq<char>,
) -> SecurityEventIngestPayloadView {
    let found = event.findings;
    let primary = found[primary_index(found)];
    SecurityEventIngestPayloadView {
        firewall_instance_id,
        event_type: "attack"@,
        attack_type: primary_attack_of(found),
        severity: highest_severity_of(found),
        source_ip: Some(event.source_ip),
        request_path: Some(event.path),
        http_method: Some(event.method),
        user_agent: None,
        country: None,
        confidence: top_confidence(found),
        detector_id: if found.len() == 0 {
            None
        } else {
            Some(primary.rule_id)
        },
        detector_ids: rule_ids_of(found),
        score: if found.len() == 0 {
            None
        } else {
            Some(types::score_of(primary.severity, primary.confidence) as i64)
        },
        api_route_id: event.normalized_route,
        anomaly_type: if found.len() == 0 {
            None
        } else {
            Some(types::category_of(primary.attack_class))
        },
        action_taken: action_name(event.decision.outcome, event.decision.actions),
        request_id: Some(event.request_id),
        raw_metadata: metadata_of(event),
        occurred_at: event.timestamp,
    }
}

/// The position of the last of the gravest findings.
fn find_gravest(findings: &Vec<Finding>) -> (r: Option<usize>)
    ensures
        match r {
            Some(i) => i == gravest_index(findings.deep_view()) && i < findings@.len(),
            None => findings@.len() == 0,
        },
{
    let ghost all = findings.deep_view();
    let mut best: Option<usize> = None;
    let mut i: usize = 0;
    assert(all.take(0) =~= Seq::empty());
    while i < findings.len()
        invariant
            i <= findings@.len(),
            all == findings.deep_view(),
            match best {
                Some(b) => b < i && b == gravest_index(all.take(i as int)),
                None => i == 0,
            },
        decreases findings@.len() - i,
    {
        assert(all.take(i + 1).drop_last() =~= all.take(i as int));
        assert(all.take(i + 1).last() == findings@[i as int].deep_view());
        let better = match best {
            Some(b) => {
                assert(all.take(i + 1)[b as int] == findings@[b as int].deep_view());
                severity_rank(&findings[i].severity) >= severity_rank(&findings[b].severity)
            },
            None => {
                assert(gravest_index(all.take(0)) == -1);
                true
            },
        };
        if better {
            best = Some(i);
        }
        i = i + 1;
    }
    assert(all.take(i as int) =~= all);
    best
}

/// The position of the last of the findings with the highest score.
fn find_primary(findings: &Vec<Finding>) -> (r: Option<usize>)
    ensures
        match r {
            Some(i) => i == primary_index(findings.deep_view()) && i < findings@.len(),
            None => findings@.len() == 0,
        },
{
    let ghost all = findings.deep_view();
    let mut best: Option<usize> = None;
    let mut i: usize = 0;
    assert(all.take(0) =~= Seq::empty());
    while i < findings.len()
        invariant
            i <= findings@.len(),
            all == findings.deep_view(),
            match best {
                Some(b) => b < i && b == primary_index(all.take(i as int)),
                None => i == 0,
            },
        decreases findings@.len() - i,
    {
        assert(all.take(i + 1).drop_last() =~= all.take(i as int));
        assert(all.take(i + 1).last() == findings@[i as int].deep_view());
        let better = match best {
            Some(b) => {
                assert(all.take(i + 1)[b as int] == findings@[b as int].deep_view());
                findings[i].score() >= findings[b].score()
            },
            None => {
                assert(primary_index(all.take(0)) == -1);
                true
            },
        };
        if better {
            best = Some(i);
        }
        i = i + 1;
    }
    assert(all.take(i as int) =~= all);
    best
}

fn find_top_confidence(findings: &Vec<Finding>) -> (r: Option<i64>)
    ensures
        r == top_confidence(findings.deep_view()),
{
    let ghost all = findings.deep_view();
    let mut top: Option<i64> = None;
    let mut i: usize = 0;
    assert(all.take(0) =~= Seq::empty());
    while i < findings.len()
        invariant
            i <= findings@.len(),
            all == findings.deep_view(),
            top == top_confidence(all.take(i as int)),
        decreases findings@.len() - i,
    {
        assert(all.take(i + 1).drop_last() =~= all.take(i as int));
        assert(all.take(i + 1).last() == findings@[i as int].deep_view());
        let c: i64 = findings[i].confidence;
        top = match top {
            Some(t) => if t >= c {
                Some(t)
            } else {
                Some(c)
            },
            None => Some(c),
        };
        i = i + 1;
    }
    assert(all.take(i as int) =~= all);
    top
}

pub(crate) fn list_rule_ids(findings: &Vec<Finding>) -> (r: Vec<String>)
    ensures
        r.deep_view() == rule_ids_of(findings.deep_view()),
{
    let ghost all = rule_ids_of(findings.deep_view());
    let mut out: Vec<String> = Vec::new();
    let mut i: usize = 0;
    assert(out.deep_view() =~= all.take(0));
    while i < findings.len()
        invariant
            i <= findings@.len(),
            all == rule_ids_of(findings.deep_view()),
            out.deep_view() == all.take(i as int),
        decreases findings@.len() - i,
    {
        assert(all[i as int] == findings@[i as int].rule_id@);
        text::push_text(&mut out, findings[i].rule_id.clone());
        i = i + 1;
        assert(out.deep_view() =~= all.take(i as int));
    }
    assert(out.deep_view() =~= all);
    out
}

fn metadata(event: &SecurityEvent) -> (r: SecurityEventMetadata)
    ensures
        r.deep_view() == metadata_of(event.deep_view()),
{
    let findings = &event.findings;
    let ghost found = findings.deep_view();
    let mut attack_classes: Vec<String> = Vec::new();
    let mut categories: Vec<String> = Vec::new();
    let mut scores: Vec<i64> = Vec::new();
    let mut i: usize = 0;
    assert(attack_classes.deep_view() =~= classes_of(found).take(0));
    assert(categories.deep_view() =~= categories_of(found).take(0));
    assert(scores@ =~= scores_of(found).take(0));
    while i < findings.len()
        invariant
            i <= findings@.len(),
            found == findings.deep_view(),
            attack_classes.deep_view() == classes_of(found).take(i as int),
            categories.deep_view() == categories_of(found).take(i as int),
            scores@ == scores_of(found).take(i as int),
        decreases findings@.len() - i,
    {
        assert(found[i as int] == findings@[i as int].deep_view());
        text::push_text(&mut attack_classes, attack_class_name(&findings[i].attack_class));
        text::push_text(&mut categories, findings[i].category().to_string());
        scores.push(findings[i].score());
        i = i + 1;
        assert(attack_classes.deep_view() =~= classes_of(found).take(i as int));
        assert(categories.deep_view() =~= categories_of(found).take(i as int));
        assert(scores@ =~= scores_of(found).take(i as int));
    }
    assert(classes_of(found).take(i as int) =~= classes_of(found));
    assert(categories_of(found).take(i as int) =~= categories_of(found));
    assert(scores_of(found).take(i as int) =~= scores_of(found));
    SecurityEventMetadata {
        rule_ids: list_rule_ids(findings),
        detector_ids: list_rule_ids(findings),
        attack_classes,
        categories,
        scores,
        normalized_route: text::clone_option(&event.normalized_route),
        finding_count: findings.len(),
        risk_score: event.decision.risk_score,
        outcome: outcome_name(&event.decision.outcome),
        action_count: event.decision.actions.len(),
    }
}

/// Maps an event to what is delivered of it.
pub fn map_security_event(event: &SecurityEvent, firewall_instance_id: &str) -> (r:
    SecurityEventIngestPayload)
    ensures
        r.deep_view() == payload_of(event.deep_view(), firewall_instance_id@),
{
    let ghost found = event.findings.deep_view();
    let (severity, attack_type) = match find_gravest(&event.findings) {
        Some(i) => {
            assert(found[i as int] == event.findings@[i as int].deep_view());
            (
                rank_to_severity(severity_rank(&event.findings[i].severity)).to_string(),
                attack_class_name(&event.findings[i].attack_class),
            )
        },
        None => ("low".to_string(), "unknown".to_string()),
    };
    let confidence = find_top_confidence(&event.findings);
    let (detector_id, score, anomaly_type): (
        Option<String>,
        Option<i64>,
        Option<String>,
    ) = match find_primary(&event.findings) {
        Some(i) => {
            assert(found[i as int] == event.findings@[i as int].deep_view());
            let primary = &event.findings[i];
            (
                Some(primary.detector_id().to_string()),
                Some(primary.score()),
                Some(primary.category().to_string()),
            )
        },
        None => (None, None, None),
    };
    let raw_metadata = metadata(event);
    proof {
        assert(event.decision.deep_view().actions =~= event.decision.actions@);
    }
    SecurityEventIngestPayload {
        firewall_instance_id: firewall_instance_id.to_string(),
        event_type: "attack".to_string(),
        attack_type,
        severity,
        source_ip: Some(event.source_ip.clone()),
        request_path: Some(event.path.clone()),
        http_method: Some(event.method.clone()),
        user_agent: None,
        country: None,
        confidence,
        detector_id,
        detector_ids: list_rule_ids(&event.findings),
        score,
        api_route_id: text::clone_option(&event.normalized_route),
        anomaly_type,
        action_taken: action_taken(event),
        request_id: Some(event.request_id.clone()),
        raw_metadata,
        occurred_at: event.timestamp,
    }
}

/// Whether two findings differ in nothing but message, evidence and mode.
pub open spec fn same_facts(a: FindingView, b: FindingView) -> bool {
    &&& a.rule_id == b.rule_id
    &&& a.attack_class == b.attack_class
    &&& a.severity == b.severity
    &&& a.confidence == b.confidence
}

proof fn lemma_same_facts(a: Seq<FindingView>, b: Seq<FindingView>)
    requires
        a.len() == b.len(),
        forall|i: int| 0 <= i < a.len() ==> same_facts(#[trigger] a[i], b[i]),
    ensures
        gravest_index(a) == gravest_index(b),
        primary_index(a) == primary_index(b),
        top_confidence(a) == top_confidence(b),
    decreases a.len(),
{
    lemma_index_range(a);
    if a.len() > 0 {
        let da = a.drop_last();
        let db = b.drop_last();
        assert forall|i: int| 0 <= i < da.len() implies same_facts(#[trigger] da[i], db[i]) by {
            assert(same_facts(a[i], b[i]));
        }
        lemma_same_facts(da, db);
        lemma_index_range(da);
        assert(same_facts(a[a.len() - 1], b[b.len() - 1]));
        if da.len() > 0 {
            assert(same_facts(a[gravest_index(da)], b[gravest_index(da)]));
            assert(same_facts(a[primary_index(da)], b[primary_index(da)]));
        }
    }
}

/// Nothing of the evidence or the messages is delivered: events that differ in nothing else give
/// the same payload.
pub proof fn law_no_evidence_is_delivered(
    a: SecurityEventView,
    b: SecurityEventView,
    firewall_instance_id: Seq<char>,
)
    requires
        a.request_id == b.request_id,
        a.timestamp == b.timestamp,
        a.source_ip == b.source_ip,
        a.method == b.method,
        a.path == b.path,
        a.normalized_route == b.normalized_route,
        a.decision.outcome == b.decision.outcome,
        a.decision.actions == b.decision.actions,
        a.decision.risk_score == b.decision.risk_score,
        a.findings.len() == b.findings.len(),
        forall|i: int|
            0 <= i < a.findings.len() ==> same_facts(#[trigger] a.findings[i], b.findings[i]),
    ensures
        payload_of(a, firewall_instance_id) == payload_of(b, firewall_instance_id),
{
    lemma_same_facts(a.findings, b.findings);
    lemma_index_range(a.findings);
    let f = a.findings;
    let g = b.findings;
    assert forall|i: int| 0 <= i < f.len() implies #[trigger] rule_ids_of(f)[i] == rule_ids_of(g)[i]
        by {
        assert(same_facts(f[i], g[i]));
    }
    assert(rule_ids_of(f) =~= rule_ids_of(g));
    assert forall|i: int| 0 <= i < f.len() implies #[trigger] classes_of(f)[i] == classes_of(g)[i]
        by {
        assert(same_facts(f[i], g[i]));
    }
    assert(classes_of(f) =~= classes_of(g));
    assert forall|i: int| 0 <= i < f.len() implies #[trigger] categories_of(f)[i]
        == categories_of(g)[i] by {
        assert(same_facts(f[i], g[i]));
    }
    assert(categories_of(f) =~= categories_of(g));
    assert forall|i: int| 0 <= i < f.len() implies #[trigger] scores_of(f)[i] == scores_of(g)[i] by {
        assert(same_facts(f[i], g[i]));
    }
    assert(scores_of(f) =~= scores_of(g));
    if f.len() > 0 {
        assert(same_facts(f[gravest_index(f)], g[gravest_index(f)]));
        assert(same_facts(f[primary_index(f)], g[primary_index(f)]));
    }
}

/// How deliveries went, in all.
#[derive(Debug, Clone, Copy)]
pub struct TelemetryDeliveryCounters {
    pub sent_total: u64,
    pub failed_total: u64,
    pub dropped_total: u64,
    pub retried_total: u64,
}

#[derive(Debug, Clone, Copy, PartialEq, Eq, Structural)]
pub struct TelemetryDeliverySnapshot {
    pub sent_total: u64,
    pub failed_total: u64,
    pub dropped_total: u64,
    pub retried_total: u64,
}

/// What became of an event that was put into the queue.
#[derive(Debug, Clone, Copy, PartialEq, Eq, Structural)]
pub enum QueueOutcome {
    Queued,
    Full,
    Closed,
}

/// The sending end of a queue of the `tokio` crate.
#[verifier::external_type_specification]
#[verifier::external_body]
#[verifier::reject_recursive_types(T)]
pub struct ExSender<T>(tokio::sync::mpsc::Sender<T>);

/// The receiving end of a queue of the `tokio` crate.
#[verifier::external_type_specification]
#[verifier::external_body]
#[verifier::reject_recursive_types(T)]
pub struct ExReceiver<T>(tokio::sync::mpsc::Receiver<T>);

/// How many events a queue can hold: the capacity that it was made with.
pub uninterp spec fn queue_capacity(sender: Sender<SecurityEventIngestPayload>) -> nat;

/// Calls `tokio::sync::mpsc::channel`, which makes a queue that holds up to `capacity` events. It
/// panics on a capacity of zero and on very large ones.
#[verifier::external_body]
fn channel(capacity: usize) -> (r: (
    Sender<SecurityEventIngestPayload>,
    Receiver<SecurityEventIngestPayload>,
))
    requires
        1 <= capacity <= 100_000,
    ensures
        queue_capacity(r.0) == capacity,
{
    tokio::sync::mpsc::channel(capacity)
}

/// Calls `Sender::try_send`, which puts an event into the queue if there is room and somebody to
/// read it. Which of these holds depends on the reader, so nothing is stated of the result.
#[verifier::external_body]
fn try_send(sender: &Sender<SecurityEventIngestPayload>, payload: SecurityEventIngestPayload) -> (r:
    QueueOutcome) {
    match sender.try_send(payload) {
        Ok(()) => QueueOutcome::Queued,
        Err(tokio::sync::mpsc::error::TrySendError::Full(_)) => QueueOutcome::Full,
        Err(tokio::sync::mpsc::error::TrySendError::Closed(_)) => QueueOutcome::Closed,
    }
}

/// The counters after an event was put into the queue: one that found no place is dropped.
pub open spec fn after_queueing(
    c: TelemetryDeliveryCounters,
    outcome: QueueOutcome,
) -> TelemetryDeliveryCounters {
    match outcome {
        QueueOutcome::Queued => c,
        _ => TelemetryDeliveryCounters { dropped_total: rate_limit::one_more(c.dropped_total), ..c },
    }
}

/// The queue of events that wait for delivery, where deliveries are made.
pub struct TelemetryDelivery {
    sender: Option<Sender<SecurityEventIngestPayload>>,
    counters: TelemetryDeliveryCounters,
    firewall_instance_id: String,
}

fn no_counts() -> (r: TelemetryDeliveryCounters)
    ensures
        r == (TelemetryDeliveryCounters {
            sent_total: 0,
            failed_total: 0,
            dropped_total: 0,
            retried_total: 0,
        }),
{
    TelemetryDeliveryCounters {
        sent_total: 0,
        failed_total: 0,
        dropped_total: 0,
        retried_total: 0,
    }
}

pub open spec fn zero_counts(c: TelemetryDeliveryCounters) -> bool {
    c.sent_total == 0 && c.failed_total == 0 && c.dropped_total == 0 && c.retried_total == 0
}

/// The capacity of the queue: what is configured, held between one and a hundred thousand.
pub open spec fn capacity_of(configured: usize) -> usize {
    if configured < 1 {
        1
    } else if configured > 100_000 {
        100_000
    } else {
        configured
    }
}

/// The number of milliseconds after which a request is given up: what is configured, and one at
/// least.
pub fn request_timeout_ms(config: &ControlPlaneConfig) -> (r: u64)
    ensures
        r == (if config.request_timeout_ms < 1 {
            1
        } else {
            config.request_timeout_ms
        }),
{
    if config.request_timeout_ms < 1 {
        1
    } else {
        config.request_timeout_ms
    }
}

impl TelemetryDelivery {
    pub closed spec fn enabled(&self) -> bool {
        self.sender is Some
    }

    /// How many events can wait for delivery, where deliveries are made.
    pub closed spec fn capacity(&self) -> Option<nat> {
        match self.sender {
            Some(sender) => Some(queue_capacity(sender)),
            None => None,
        }
    }

    pub closed spec fn counts(&self) -> TelemetryDeliveryCounters {
        self.counters
    }

    pub closed spec fn instance_id(&self) -> Seq<char> {
        self.firewall_instance_id@
    }

    pub fn disabled() -> (r: Self)
        ensures
            !r.enabled(),
            zero_counts(r.counts()),
            r.instance_id() == Seq::<char>::empty(),
    {
        TelemetryDelivery {
            sender: None,
            counters: no_counts(),
            firewall_instance_id: String::new(),
        }
    }

    /// Sets deliveries up as configured. The other end of the queue is for the worker that makes
    /// the deliveries; there is none where no deliveries are made.
    pub fn new(config: &ControlPlaneConfig) -> (r: Result<
        (Self, Option<Receiver<SecurityEventIngestPayload>>),
        ConfigError,
    >)
        ensures
            match r {
                Ok((delivery, receiver)) => {
                    &&& config::control_plane_error(*config) is None
                    &&& delivery.enabled() == config.telemetry_enabled
                    &&& receiver is Some == config.telemetry_enabled
                    &&& delivery.capacity() == (if config.telemetry_enabled {
                        Some(capacity_of(config.queue_capacity) as nat)
                    } else {
                        None
                    })
                    &&& zero_counts(delivery.counts())
                    &&& delivery.instance_id() == (if config.telemetry_enabled {
                        config.firewall_instance_id@
                    } else {
                        Seq::<char>::empty()
                    })
                },
                Err(e) => config::control_plane_error(*config) == Some(e),
            },
    {
        config.validate()?;
        if !config.telemetry_enabled {
            return Ok((Self::disabled(), None));
        }
        let capacity: usize = if config.queue_capacity < 1 {
            1
        } else if config.queue_capacity > 100_000 {
            100_000
        } else {
            config.queue_capacity
        };
        let (sender, receiver) = channel(capacity);
        let delivery = TelemetryDelivery {
            sender: Some(sender),
            counters: no_counts(),
            firewall_instance_id: config.firewall_instance_id.clone(),
        };
        Ok((delivery, Some(receiver)))
    }

    /// Counts what became of an event that was put into the queue.
    pub fn note_queued(&mut self, outcome: QueueOutcome)
        ensures
            final(self).counts() == after_queueing(old(self).counts(), outcome),
            final(self).enabled() == old(self).enabled(),
            final(self).capacity() == old(self).capacity(),
            final(self).instance_id() == old(self).instance_id(),
    {
        match outcome {
            QueueOutcome::Queued => {},
            QueueOutcome::Full | QueueOutcome::Closed => {
                self.counters.dropped_total = self.counters.dropped_total.saturating_add(1);
            },
        }
    }

    /// What is put into the queue for an event, where deliveries are made.
    pub fn prepare(&self, event: &SecurityEvent) -> (r: Option<SecurityEventIngestPayload>)
        ensures
            r.deep_view() == (if self.enabled() {
                Some(payload_of(event.deep_view(), self.instance_id()))
            } else {
                None
            }),
    {
        match &self.sender {
            Some(_) => Some(map_security_event(event, self.firewall_instance_id.as_str())),
            None => None,
        }
    }

    /// Puts an event into the queue, where deliveries are made. An event that finds no place is
    /// dropped and counted. What is put into the queue is the payload of the event; whether there is
    /// room for it depends on the worker.
    pub fn enqueue(&mut self, event: &SecurityEvent) -> (r: Option<QueueOutcome>)
        ensures
            r is Some == old(self).enabled(),
            final(self).counts() == (match r {
                Some(outcome) => after_queueing(old(self).counts(), outcome),
                None => old(self).counts(),
            }),
            final(self).enabled() == old(self).enabled(),
            final(self).capacity() == old(self).capacity(),
            final(self).instance_id() == old(self).instance_id(),
    {
        let outcome = match (&self.sender, self.prepare(event)) {
            (Some(sender), Some(payload)) => try_send(sender, payload),
            _ => return None,
        };
        self.note_queued(outcome);
        Some(outcome)
    }

    /// Counts how a delivery went.
    pub fn note_step(&mut self, step: &DeliveryStep)
        ensures
            final(self).counts() == after_step(old(self).counts(), *step),
            final(self).enabled() == old(self).enabled(),
            final(self).capacity() == old(self).capacity(),
            final(self).instance_id() == old(self).instance_id(),
    {
        match step {
            DeliveryStep::Done => {
                self.counters.sent_total = self.counters.sent_total.saturating_add(1);
            },
            DeliveryStep::Retry { .. } => {
                self.counters.retried_total = self.counters.retried_total.saturating_add(1);
            },
            DeliveryStep::GiveUp(_) => {
                self.counters.failed_total = self.counters.failed_total.saturating_add(1);
            },
        }
    }

    pub fn snapshot(&self) -> (r: TelemetryDeliverySnapshot)
        ensures
            r.sent_total == self.counts().sent_total,
            r.failed_total == self.counts().failed_total,
            r.dropped_total == self.counts().dropped_total,
            r.retried_total == self.counts().retried_total,
    {
        TelemetryDeliverySnapshot {
            sent_total: self.counters.sent_total,
            failed_total: self.counters.failed_total,
            dropped_total: self.counters.dropped_total,
            retried_total: self.counters.retried_total,
        }
    }
}

/// How one attempt to deliver went: the answer's status, or no answer.
#[derive(Debug, Clone, Copy, PartialEq, Eq, Structural)]
pub enum Attempt {
    Answered(u16),
    Unanswered,
}

/// What an answer means for a delivery.
#[derive(Debug, Clone, Copy, PartialEq, Eq, Structural)]
pub enum DeliveryOutcome {
    Sent,
    Retryable(u16),
    Permanent(u16),
}

/// Why a delivery was given up.
#[derive(Debug, Clone, Copy, PartialEq, Eq, Structural)]
pub enum DeliveryFailure {
    Rejected(u16),
    Exhausted(u16),
    Unreachable,
}

/// What to do after an attempt to deliver.
#[derive(Debug, Clone, Copy, PartialEq, Eq, Structural)]
pub enum DeliveryStep {
    Done,
    GiveUp(DeliveryFailure),
    Retry { attempt: usize, delay_ms: u64 },
}

/// Whether a status says that a later attempt may succeed.
pub open spec fn retryable(status: u16) -> bool {
    status == 408 || status == 429 || 500 <= status <= 599
}

pub fn is_retryable_status(status: u16) -> (r: bool)
    ensures
        r == retryable(status),
{
    status == 408 || status == 429 || (500 <= status && status <= 599)
}

pub open spec fn outcome_of_status(status: u16) -> DeliveryOutcome {
    if 200 <= status <= 299 {
        DeliveryOutcome::Sent
    } else if retryable(status) {
        DeliveryOutcome::Retryable(status)
    } else {
        DeliveryOutcome::Permanent(status)
    }
}

pub fn classify_status(status: u16) -> (r: DeliveryOutcome)
    ensures
        r == outcome_of_status(status),
{
    if 200 <= status && status <= 299 {
        DeliveryOutcome::Sent
    } else if is_retryable_status(status) {
        DeliveryOutcome::Retryable(status)
    } else {
        DeliveryOutcome::Permanent(status)
    }
}

/// Two to the power of a number.
pub open spec fn power_of_two(n: nat) -> nat
    decreases n,
{
    if n == 0 {
        1
    } else {
        2 * power_of_two((n - 1) as nat)
    }
}

/// The delay before a retry: it doubles with every attempt, up to a limit, and a little is added
/// that differs from attempt to attempt.
pub open spec fn backoff_of(attempt: nat) -> nat {
    let doubled = BASE_BACKOFF_MS * power_of_two((attempt - 1) as nat);
    ((if doubled < MAX_BACKOFF_MS {
        doubled
    } else {
        MAX_BACKOFF_MS as int
    }) + (attempt * 37) % 50) as nat
}

proof fn lemma_power_grows(n: nat)
    requires
        n >= 5,
    ensures
        power_of_two(n) >= 32,
    decreases n,
{
    if n == 5 {
        reveal_with_fuel(power_of_two, 7);
    } else {
        lemma_power_grows((n - 1) as nat);
    }
}

/// The delay before the given attempt, in milliseconds.
pub fn backoff_ms(attempt: usize) -> (r: u64)
    requires
        1 <= attempt <= 1_000_000,
    ensures
        r == backoff_of(attempt as nat),
        r < MAX_BACKOFF_MS + 50,
{
    proof {
        reveal_with_fuel(power_of_two, 7);
        if attempt >= 6 {
            lemma_power_grows((attempt - 1) as nat);
        }
    }
    let doubled: u64 = if attempt == 1 {
        100
    } else if attempt == 2 {
        200
    } else if attempt == 3 {
        400
    } else if attempt == 4 {
        800
    } else if attempt == 5 {
        1_600
    } else {
        2_000
    };
    doubled + (attempt as u64 * 37) % 50
}

/// What to do after an attempt that followed some retries.
pub open spec fn step_of(retries: usize, result: Attempt) -> DeliveryStep {
    let again = (retries + 1) as usize;
    let retry = DeliveryStep::Retry { attempt: again, delay_ms: backoff_of(again as nat) as u64 };
    match result {
        Attempt::Answered(status) => match outcome_of_status(status) {
            DeliveryOutcome::Sent => DeliveryStep::Done,
            DeliveryOutcome::Permanent(status) => DeliveryStep::GiveUp(
                DeliveryFailure::Rejected(status),
            ),
            DeliveryOutcome::Retryable(status) => if retries >= MAX_RETRIES {
                DeliveryStep::GiveUp(DeliveryFailure::Exhausted(status))
            } else {
                retry
            },
        },
        Attempt::Unanswered => if retries >= MAX_RETRIES {
            DeliveryStep::GiveUp(DeliveryFailure::Unreachable)
        } else {
            retry
        },
    }
}

pub fn next_step(retries: usize, result: Attempt) -> (r: DeliveryStep)
    ensures
        r == step_of(retries, result),
{
    let outcome = match result {
        Attempt::Answered(status) => classify_status(status),
        Attempt::Unanswered => DeliveryOutcome::Retryable(0),
    };
    match outcome {
        DeliveryOutcome::Sent => DeliveryStep::Done,
        DeliveryOutcome::Permanent(status) => DeliveryStep::GiveUp(
            DeliveryFailure::Rejected(status),
        ),
        DeliveryOutcome::Retryable(status) => {
            if retries >= MAX_RETRIES {
                match result {
                    Attempt::Answered(_) => DeliveryStep::GiveUp(
                        DeliveryFailure::Exhausted(status),
                    ),
                    Attempt::Unanswered => DeliveryStep::GiveUp(DeliveryFailure::Unreachable),
                }
            } else {
                let attempt: usize = retries + 1;
                DeliveryStep::Retry { attempt, delay_ms: backoff_ms(attempt) }
            }
        },
    }
}

/// The counters after a step of a delivery.
pub open spec fn after_step(
    c: TelemetryDeliveryCounters,
    step: DeliveryStep,
) -> TelemetryDeliveryCounters {
    match step {
        DeliveryStep::Done => TelemetryDeliveryCounters { sent_total: rate_limit::one_more(c.sent_total), ..c },
        DeliveryStep::Retry { .. } => TelemetryDeliveryCounters {
            retried_total: rate_limit::one_more(c.retried_total),
            ..c
        },
        DeliveryStep::GiveUp(_) => TelemetryDeliveryCounters {
            failed_total: rate_limit::one_more(c.failed_total),
            ..c
        },
    }
}

/// A status with its reason; a number that is no status stands alone.
pub open spec fn status_text_of(status: u16) -> Seq<char> {
    match outside::status_with_reason(status) {
        Some(shown) => shown,
        None => text::decimal_of(status as nat),
    }
}

pub fn status_text(status: u16) -> (r: String)
    ensures
        r@ == status_text_of(status),
        text::has_prefix(r@, text::decimal_of(status as nat)),
{
    match outside::status_line(status) {
        Some(shown) => {
            let ghost digits = text::decimal_of(status as nat);
            assert(shown@.take(digits.len() as int) =~= (digits + " "@).take(digits.len() as int));
            assert((digits + " "@).take(digits.len() as int) =~= digits);
            shown
        },
        None => {
            let digits = text::decimal(status as u128);
            assert(digits@.take(digits@.len() as int) =~= digits@);
            digits
        },
    }
}

/// What is said about a failure, given how the status of the last answer is written.
pub open spec fn failure_text(failure: DeliveryFailure, status_text: Seq<char>) -> Seq<char> {
    match failure {
        DeliveryFailure::Rejected(_) =>
            "control-plane rejected telemetry with non-retryable status "@ + status_text,
        DeliveryFailure::Exhausted(_) => "control-plane telemetry exhausted retries after status "@
            + status_text,
        DeliveryFailure::Unreachable =>
            "control-plane telemetry exhausted retries after network error"@,
    }
}

impl DeliveryFailure {
    pub fn message(&self, status_text: &str) -> (r: String)
        ensures
            r@ == failure_text(*self, status_text@),
    {
        match self {
            DeliveryFailure::Rejected(_) => text::cat2(
                "control-plane rejected telemetry with non-retryable status ",
                status_text,
            ),
            DeliveryFailure::Exhausted(_) => text::cat2(
                "control-plane telemetry exhausted retries after status ",
                status_text,
            ),
            DeliveryFailure::Unreachable =>
                "control-plane telemetry exhausted retries after network error".to_string(),
        }
    }

    /// The message with the status written in full.
    pub fn describe(&self) -> (r: String)
        ensures
            r@ == failure_text(
                *self,
                match *self {
                    DeliveryFailure::Rejected(status) => status_text_of(status),
                    DeliveryFailure::Exhausted(status) => status_text_of(status),
                    DeliveryFailure::Unreachable => Seq::empty(),
                },
            ),
    {
        let shown = match self {
            DeliveryFailure::Rejected(status) => status_text(*status),
            DeliveryFailure::Exhausted(status) => status_text(*status),
            DeliveryFailure::Unreachable => String::new(),
        };
        self.message(shown.as_str())
    }
}

/// How many attempts a delivery makes, when the attempts from the given number of retries on go as
/// listed; the list must be long enough.
pub open spec fn attempts_made(retries: usize, results: Seq<Attempt>) -> nat
    decreases results.len(),
{
    if results.len() == 0 {
        0
    } else {
        match step_of(retries, results[0]) {
            DeliveryStep::Retry { attempt, .. } => 1 + attempts_made(
                attempt,
                results.drop_first(),
            ),
            _ => 1,
        }
    }
}

/// Whatever the answers are, an event is sent no more often than once and the retries.
pub proof fn law_attempts_bounded(retries: usize, results: Seq<Attempt>)
    requires
        retries <= MAX_RETRIES,
    ensures
        attempts_made(retries, results) <= MAX_RETRIES + 1 - retries,
    decreases results.len(),
{
    if results.len() > 0 {
        match step_of(retries, results[0]) {
            DeliveryStep::Retry { attempt, .. } => {
                law_attempts_bounded(attempt, results.drop_first());
            },
            _ => {},
        }
    }
}

} // verus!
