//! What is told of an event, and how often it is tried.

use crate::telemetry_delivery;
use crate::telemetry_delivery::{
    Attempt, DeliveryFailure, DeliveryStep, QueueOutcome, TelemetryDeliveryCounters,
};
use crate::text;
use crate::types;
use crate::types::{AttackClass, FindingView, SecurityEventView, Severity};
use vstd::prelude::*;

verus! {

/// The score of a finding is the weight of its severity times its confidence, held to the range
/// from zero to one.
pub proof fn law_score(severity: Severity, confidence: i64)
    ensures
        confidence <= 0 ==> types::score_of(severity, confidence) == 0,
        confidence >= 1_000_000 ==> types::score_of(severity, confidence) == types::score_of(
            severity,
            1_000_000,
        ),
        0 <= confidence <= 1_000_000 ==> {
            &&& types::score_of(Severity::Low, confidence) == 20 * confidence
            &&& types::score_of(Severity::Medium, confidence) == 45 * confidence
            &&& types::score_of(Severity::High, confidence) == 70 * confidence
            &&& types::score_of(Severity::Critical, confidence) == 90 * confidence
        },
{
}

/// Whether a severity is the highest among findings.
pub open spec fn is_highest(findings: Seq<FindingView>, severity: Severity) -> bool {
    &&& exists|i: int| 0 <= i < findings.len() && (#[trigger] findings[i]).severity == severity
    &&& forall|i: int|
        0 <= i < findings.len() ==> {
            let s = (#[trigger] findings[i]).severity;
            &&& severity == Severity::Low ==> s == Severity::Low
            &&& severity == Severity::Medium ==> s == Severity::Low || s == Severity::Medium
            &&& severity == Severity::High ==> s != Severity::Critical
        }
}

proof fn lemma_gravest(findings: Seq<FindingView>)
    requires
        findings.len() > 0,
    ensures
        ({
            let g = telemetry_delivery::gravest_index(findings);
            &&& 0 <= g < findings.len()
            &&& is_highest(findings, findings[g].severity)
            &&& forall|i: int|
                g < i < findings.len() ==> (#[trigger] findings[i]).severity != findings[g].severity
        }),
    decreases findings.len(),
{
    let before = findings.drop_last();
    assert(forall|i: int| 0 <= i < before.len() ==> before[i] == #[trigger] findings[i]);
    assert(findings.last() == findings[findings.len() - 1]);
    telemetry_delivery::law_picked_findings(findings);
    if before.len() > 0 {
        lemma_gravest(before);
    }
    let g = telemetry_delivery::gravest_index(findings);
    assert(findings[g].severity == findings[g].severity);
}

proof fn lemma_primary(findings: Seq<FindingView>)
    requires
        findings.len() > 0,
    ensures
        ({
            let g = telemetry_delivery::primary_index(findings);
            &&& 0 <= g < findings.len()
            &&& forall|i: int|
                g < i < findings.len() ==> types::score_of(
                    (#[trigger] findings[i]).severity,
                    findings[i].confidence,
                ) < types::score_of(findings[g].severity, findings[g].confidence)
        }),
    decreases findings.len(),
{
    let before = findings.drop_last();
    assert(forall|i: int| 0 <= i < before.len() ==> before[i] == #[trigger] findings[i]);
    assert(findings.last() == findings[findings.len() - 1]);
    telemetry_delivery::law_picked_findings(findings);
    if before.len() > 0 {
        lemma_primary(before);
        telemetry_delivery::law_picked_findings(before);
    }
}

proof fn lemma_top(findings: Seq<FindingView>)
    ensures
        findings.len() == 0 <==> telemetry_delivery::top_confidence(findings) is None,
        findings.len() > 0 ==> {
            let top = telemetry_delivery::top_confidence(findings)->0;
            &&& exists|i: int| 0 <= i < findings.len() && (#[trigger] findings[i]).confidence == top
            &&& forall|i: int|
                0 <= i < findings.len() ==> (#[trigger] findings[i]).confidence <= top
        },
    decreases findings.len(),
{
    if findings.len() > 0 {
        let before = findings.drop_last();
        lemma_top(before);
        assert(forall|i: int| 0 <= i < before.len() ==> #[trigger] before[i] == findings[i]);
        assert(findings.last() == findings[findings.len() - 1]);
        let top = telemetry_delivery::top_confidence(findings)->0;
        if before.len() > 0 && telemetry_delivery::top_confidence(before)->0 == top {
            let i = choose|i: int|
                0 <= i < before.len() && (#[trigger] before[i]).confidence == top;
            assert(findings[i].confidence == top);
        }
        assert forall|i: int| 0 <= i < findings.len() implies (#[trigger] findings[i]).confidence
            <= top by {
            if i < before.len() {
                assert(before[i] == findings[i]);
            }
        }
    }
}

/// What is told of an event is told of the request that it came of.
pub proof fn law_event_told(event: SecurityEventView, instance: Seq<char>)
    ensures
        ({
            let p = telemetry_delivery::payload_of(event, instance);
            &&& p.firewall_instance_id == instance
            &&& p.source_ip == Some(event.source_ip) && p.request_path == Some(event.path)
            &&& p.http_method == Some(event.method) && p.request_id == Some(event.request_id)
            &&& p.api_route_id == event.normalized_route && p.occurred_at == event.timestamp
            &&& p.event_type == "attack"@ && p.user_agent is None && p.country is None
            &&& event.findings.len() == 0 ==> p.severity == "low"@ && p.attack_type == "unknown"@
                && p.confidence is None && p.detector_id is None && p.score is None
                && p.anomaly_type is None
        }),
{
}

/// What is told of an event names its highest severity, with the last attack of that severity, and
/// its highest confidence.
pub proof fn law_gravest_told(event: SecurityEventView, instance: Seq<char>)
    requires
        event.findings.len() > 0,
    ensures
        ({
            let p = telemetry_delivery::payload_of(event, instance);
            let found = event.findings;
            &&& is_highest(found, Severity::Low) ==> p.severity == "low"@
            &&& is_highest(found, Severity::Medium) ==> p.severity == "medium"@
            &&& is_highest(found, Severity::High) ==> p.severity == "high"@
            &&& is_highest(found, Severity::Critical) ==> p.severity == "critical"@
            &&& forall|i: int|
                #![trigger found[i]]
                0 <= i < found.len() && is_highest(found, found[i].severity) && (forall|j: int|
                    i < j < found.len() ==> (#[trigger] found[j]).severity != found[i].severity)
                    ==> p.attack_type == telemetry_delivery::class_name(found[i].attack_class)
            &&& p.confidence is Some && exists|i: int|
                0 <= i < found.len() && (#[trigger] found[i]).confidence == p.confidence->0
            &&& forall|i: int|
                0 <= i < found.len() ==> (#[trigger] found[i]).confidence <= p.confidence->0
        }),
{
    lemma_top(event.findings);
    lemma_named(event.findings);
}

/// What is told of an event names the finding with the highest score, the last of them where
/// several have it.
pub proof fn law_highest_score_told(event: SecurityEventView, instance: Seq<char>, i: int)
    requires
        0 <= i < event.findings.len(),
        forall|j: int|
            0 <= j < event.findings.len() ==> types::score_of(
                (#[trigger] event.findings[j]).severity,
                event.findings[j].confidence,
            ) <= types::score_of(event.findings[i].severity, event.findings[i].confidence),
        forall|j: int|
            i < j < event.findings.len() ==> types::score_of(
                (#[trigger] event.findings[j]).severity,
                event.findings[j].confidence,
            ) < types::score_of(event.findings[i].severity, event.findings[i].confidence),
    ensures
        ({
            let p = telemetry_delivery::payload_of(event, instance);
            let f = event.findings[i];
            &&& p.detector_id == Some(f.rule_id)
            &&& p.score == Some(types::score_of(f.severity, f.confidence) as i64)
            &&& p.anomaly_type == Some(types::category_of(f.attack_class))
        }),
{
    let found = event.findings;
    lemma_primary(found);
    telemetry_delivery::law_picked_findings(found);
    let g = telemetry_delivery::primary_index(found);
    assert(found[g] == event.findings[g]);
    assert(g == i);
}

proof fn lemma_named(found: Seq<FindingView>)
    requires
        found.len() > 0,
    ensures
        ({
            let p = telemetry_delivery::highest_severity_of(found);
            &&& is_highest(found, Severity::Low) ==> p == "low"@
            &&& is_highest(found, Severity::Medium) ==> p == "medium"@
            &&& is_highest(found, Severity::High) ==> p == "high"@
            &&& is_highest(found, Severity::Critical) ==> p == "critical"@
            &&& forall|i: int|
                #![trigger found[i]]
                0 <= i < found.len() && is_highest(found, found[i].severity) && (forall|j: int|
                    i < j < found.len() ==> (#[trigger] found[j]).severity != found[i].severity)
                    ==> telemetry_delivery::primary_attack_of(found)
                    == telemetry_delivery::class_name(found[i].attack_class)
        }),
{
    lemma_gravest(found);
    let g = telemetry_delivery::gravest_index(found);
    let s = found[g].severity;
    assert forall|t: Severity| is_highest(found, t) implies t == s by {
        let i = choose|i: int| 0 <= i < found.len() && (#[trigger] found[i]).severity == t;
        assert(found[i].severity == t);
        assert(found[g].severity == s);
    }
}

/// What is told of an event lists the facts of each of its findings, in order, with what was decided.
pub proof fn law_findings_told(event: SecurityEventView, instance: Seq<char>, i: int)
    requires
        0 <= i < event.findings.len(),
    ensures
        ({
            let p = telemetry_delivery::payload_of(event, instance);
            let m = p.raw_metadata;
            let f = event.findings[i];
            let n = event.findings.len();
            &&& p.detector_ids.len() == n && p.detector_ids[i] == f.rule_id
            &&& m.rule_ids.len() == n && m.rule_ids[i] == f.rule_id
            &&& m.detector_ids.len() == n && m.detector_ids[i] == f.rule_id
            &&& m.attack_classes.len() == n && m.attack_classes[i]
                == telemetry_delivery::class_name(f.attack_class)
            &&& m.categories.len() == n && m.categories[i] == types::category_of(f.attack_class)
            &&& m.scores.len() == n && m.scores[i] == types::score_of(
                f.severity,
                f.confidence,
            ) as i64
            &&& m.finding_count == n as usize && m.action_count
                == event.decision.actions.len() as usize
            &&& m.risk_score == event.decision.risk_score && m.normalized_route
                == event.normalized_route
        }),
{
}

/// What was done with a request: refused, slowed down or let through.
pub proof fn law_action_told(event: SecurityEventView, instance: Seq<char>)
    ensures
        ({
            let p = telemetry_delivery::payload_of(event, instance);
            let slowed = exists|i: int|
                0 <= i < event.decision.actions.len() && (
                #[trigger] event.decision.actions[i]) is ThrottleSource;
            let refused = event.decision.outcome is Reject;
            &&& refused ==> p.action_taken == "blocked"@
            &&& !refused && slowed ==> p.action_taken == "rate_limited"@
            &&& !refused && !slowed ==> p.action_taken == "allowed"@
            &&& !refused ==> p.raw_metadata.outcome == "allow"@
            &&& refused ==> p.raw_metadata.outcome == "reject:"@ + text::decimal_of(
                event.decision.outcome->status_code as nat,
            )
        }),
{
}

/// The name under which a class is told. The attacks on credentials share one.
pub proof fn law_class_names()
    ensures
        telemetry_delivery::class_name(AttackClass::SqlInjection) == "sql_injection"@,
        telemetry_delivery::class_name(AttackClass::Xss) == "xss"@,
        telemetry_delivery::class_name(AttackClass::CommandInjection) == "command_injection"@,
        telemetry_delivery::class_name(AttackClass::PathTraversal) == "path_traversal"@,
        telemetry_delivery::class_name(AttackClass::HeaderInjection) == "header_injection"@,
        telemetry_delivery::class_name(AttackClass::RequestSmuggling) == "request_smuggling"@,
        telemetry_delivery::class_name(AttackClass::Ssrf) == "ssrf"@,
        telemetry_delivery::class_name(AttackClass::RateLimitExceeded) == "rate_limit_exceeded"@,
        telemetry_delivery::class_name(AttackClass::MethodAbuse) == "method_abuse"@,
        telemetry_delivery::class_name(AttackClass::PayloadEvasion) == "payload_evasion"@,
        telemetry_delivery::class_name(AttackClass::MissingSecurityHeaders)
            == "missing_security_headers"@,
        telemetry_delivery::class_name(AttackClass::SchemaViolation) == "schema_violation"@,
        telemetry_delivery::class_name(AttackClass::ObjectEnumeration) == "object_enumeration"@,
        telemetry_delivery::class_name(AttackClass::BehaviorAnomaly) == "behavior_anomaly"@,
        telemetry_delivery::class_name(AttackClass::ResponseLeak) == "response_leak"@,
        telemetry_delivery::class_name(AttackClass::ShadowApi) == "shadow_api"@,
        telemetry_delivery::class_name(AttackClass::TenantBoundaryViolation)
            == "tenant_boundary_violation"@,
        telemetry_delivery::class_name(AttackClass::ApiInventory) == "api_inventory"@,
        telemetry_delivery::class_name(AttackClass::ResourceAbuse) == "resource_abuse"@,
        telemetry_delivery::class_name(AttackClass::SecurityMisconfiguration)
            == "security_misconfiguration"@,
        forall|c: AttackClass|
            #[trigger] telemetry_delivery::class_name(c) == "credential_attack"@ <==> c
                == AttackClass::BrokenAuthentication || c == AttackClass::BruteForce || c
                == AttackClass::JwtAbuse || c == AttackClass::AuthAbuse,
{
    reveal_strlit("credential_attack");
    reveal_strlit("sql_injection");
    reveal_strlit("xss");
    reveal_strlit("command_injection");
    reveal_strlit("path_traversal");
    reveal_strlit("header_injection");
    reveal_strlit("request_smuggling");
    reveal_strlit("ssrf");
    reveal_strlit("rate_limit_exceeded");
    reveal_strlit("method_abuse");
    reveal_strlit("payload_evasion");
    reveal_strlit("missing_security_headers");
    reveal_strlit("schema_violation");
    reveal_strlit("object_enumeration");
    reveal_strlit("behavior_anomaly");
    reveal_strlit("response_leak");
    reveal_strlit("shadow_api");
    reveal_strlit("tenant_boundary_violation");
    reveal_strlit("api_inventory");
    reveal_strlit("resource_abuse");
    reveal_strlit("security_misconfiguration");
    assert("credential_attack"@.len() == 17 && "credential_attack"@[0] == 'c' && "credential_attack"
        @[1] == 'r');
    assert("command_injection"@[1] == 'o');
    assert("request_smuggling"@[0] == 'r');
}

/// The category of a class.
pub proof fn law_categories(c: AttackClass)
    ensures
        c is SqlInjection || c is Xss || c is CommandInjection || c is PathTraversal
            ==> types::category_of(c) == "injection"@,
        c is Ssrf ==> types::category_of(c) == "ssrf"@,
        c is BrokenAuthentication || c is JwtAbuse || c is AuthAbuse ==> types::category_of(c)
            == "authentication"@,
        c is ObjectEnumeration || c is TenantBoundaryViolation ==> types::category_of(c)
            == "object_access"@,
        c is SchemaViolation ==> types::category_of(c) == "schema"@,
        c is ShadowApi || c is ApiInventory ==> types::category_of(c) == "api_inventory"@,
        c is BehaviorAnomaly || c is RateLimitExceeded || c is BruteForce ==> types::category_of(c)
            == "behavior"@,
        c is RequestSmuggling || c is HeaderInjection ==> types::category_of(c) == "protocol"@,
        c is MissingSecurityHeaders || c is SecurityMisconfiguration ==> types::category_of(c)
            == "configuration"@,
        c is ResponseLeak ==> types::category_of(c) == "response_contract"@,
        c is ResourceAbuse ==> types::category_of(c) == "resource_consumption"@,
        c is PayloadEvasion ==> types::category_of(c) == "evasion"@,
        c is MethodAbuse ==> types::category_of(c) == "method_abuse"@,
{
}

/// A delivery is done when it was taken. One that timed out, came too often, met a fault of the
/// server or no answer is tried again, three times in all. Another is given up at once.
pub proof fn law_tried_again(retries: usize, status: u16)
    ensures
        ({
            let step = telemetry_delivery::step_of(retries, Attempt::Answered(status));
            let again = status == 408 || status == 429 || 500 <= status <= 599;
            &&& step is Done <==> 200 <= status <= 299
            &&& step is Retry <==> again && retries < 3
            &&& again && retries >= 3 ==> step == DeliveryStep::GiveUp(
                DeliveryFailure::Exhausted(status),
            )
            &&& !again && !(200 <= status <= 299) ==> step == DeliveryStep::GiveUp(
                DeliveryFailure::Rejected(status),
            )
        }),
        ({
            let step = telemetry_delivery::step_of(retries, Attempt::Unanswered);
            &&& retries < 3 ==> step is Retry
            &&& retries >= 3 ==> step == DeliveryStep::GiveUp(DeliveryFailure::Unreachable)
        }),
{
}

/// The wait before the next try doubles until it is two seconds, but for less than fifty
/// milliseconds that go by the number of the try.
pub proof fn law_wait_doubles(attempt: nat)
    requires
        attempt >= 1,
    ensures
        telemetry_delivery::backoff_of(1) == 137,
        ({
            let this = telemetry_delivery::backoff_of(attempt) - (attempt * 37) % 50;
            let next = telemetry_delivery::backoff_of(attempt + 1) - ((attempt + 1) * 37) % 50;
            &&& 100 <= this <= 2_000
            &&& next == (if 2 * this < 2_000 {
                2 * this
            } else {
                2_000
            })
        }),
    decreases attempt,
{
    reveal_with_fuel(telemetry_delivery::power_of_two, 2);
    if attempt > 1 {
        law_wait_doubles((attempt - 1) as nat);
    }
    assert(telemetry_delivery::power_of_two(attempt) == 2 * telemetry_delivery::power_of_two(
        (attempt - 1) as nat,
    ));
    assert((attempt + 1 - 1) as nat == attempt);
    lemma_power((attempt - 1) as nat);
}

proof fn lemma_power(n: nat)
    ensures
        telemetry_delivery::power_of_two(n) >= 1,
    decreases n,
{
    if n > 0 {
        lemma_power((n - 1) as nat);
    }
}

/// The number of the next try is one more, and its wait goes by that number.
pub proof fn law_next_try(retries: usize, result: Attempt)
    ensures
        ({
            let step = telemetry_delivery::step_of(retries, result);
            step is Retry ==> step->attempt == retries + 1 && step->delay_ms
                == telemetry_delivery::backoff_of((retries + 1) as nat) as u64
        }),
{
}

/// Every step counts once: as sent, as tried again or as failed. What the queue did not take
/// counts as dropped.
pub proof fn law_counted(
    c: TelemetryDeliveryCounters,
    step: DeliveryStep,
    outcome: QueueOutcome,
)
    requires
        c.sent_total < u64::MAX,
        c.failed_total < u64::MAX,
        c.dropped_total < u64::MAX,
        c.retried_total < u64::MAX,
    ensures
        ({
            let d = telemetry_delivery::after_step(c, step);
            &&& d.dropped_total == c.dropped_total
            &&& d.sent_total == c.sent_total + (if step is Done {
                1int
            } else {
                0
            })
            &&& d.retried_total == c.retried_total + (if step is Retry {
                1int
            } else {
                0
            })
            &&& d.failed_total == c.failed_total + (if step is GiveUp {
                1int
            } else {
                0
            })
        }),
        ({
            let d = telemetry_delivery::after_queueing(c, outcome);
            &&& d.sent_total == c.sent_total && d.retried_total == c.retried_total
            &&& d.failed_total == c.failed_total
            &&& d.dropped_total == c.dropped_total + (if outcome is Queued {
                0int
            } else {
                1
            })
        }),
{
}

/// The queue holds as many as were asked for, at least one and at most a hundred thousand.
pub proof fn law_queue_size(configured: usize)
    ensures
        1 <= telemetry_delivery::capacity_of(configured) <= 100_000,
        1 <= configured <= 100_000 ==> telemetry_delivery::capacity_of(configured) == configured,
        configured > 100_000 ==> telemetry_delivery::capacity_of(configured) == 100_000,
{
}

/// A failure with a status is told with that status, and the kinds of failure are told apart.
pub proof fn law_failure_told(status: u16, shown: Seq<char>)
    ensures
        telemetry_delivery::failure_text(DeliveryFailure::Rejected(status), shown)
            == "control-plane rejected telemetry with non-retryable status "@ + shown,
        telemetry_delivery::failure_text(DeliveryFailure::Exhausted(status), shown)
            == "control-plane telemetry exhausted retries after status "@ + shown,
        telemetry_delivery::failure_text(DeliveryFailure::Unreachable, shown)
            == "control-plane telemetry exhausted retries after network error"@,
{
}

} // verus!
