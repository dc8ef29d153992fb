//! When a request is rejected, and what is done about it.

use crate::config::{AppConfig, DetectorException, PolicyMode, RuleMode};
use crate::dedupe;
use crate::policy;
use crate::text;
use crate::types::{
    AttackClass, DecisionOutcomeView, FindingEvidenceView, FindingView, MitigationAction, Severity,
};
use vstd::prelude::*;

verus! {

/// Whether a piece of evidence is about a parameter: the parameter itself, a member of something
/// under its name, or an index by it.
pub open spec fn is_about(e: FindingEvidenceView, parameter: Seq<char>) -> bool {
    let place = text::lower_of(e.location);
    let name = text::lower_of(text::trim_of(parameter));
    &&& name.len() > 0
    &&& place == name || text::has_suffix(place, "."@ + name) || text::has_suffix(
        place,
        "["@ + name + "]"@,
    )
}

/// Whether an exception covers a finding: it only monitors, is for the finding's rule, and each
/// condition that it sets holds.
pub open spec fn covers(e: DetectorException, f: FindingView, path: Seq<char>) -> bool {
    &&& e.monitor_only
    &&& e.detector_id@ == f.rule_id
    &&& match e.path_prefix {
        Some(prefix) => text::has_prefix(path, prefix@),
        None => true,
    }
    &&& match e.min_confidence {
        Some(least) => least <= f.confidence,
        None => true,
    }
    &&& match e.parameter {
        Some(parameter) => exists|i: int|
            0 <= i < f.evidence.len() && is_about(#[trigger] f.evidence[i], parameter@),
        None => true,
    }
}

/// Whether any of some exceptions covers a finding.
pub open spec fn covered(
    exceptions: Seq<DetectorException>,
    f: FindingView,
    path: Seq<char>,
) -> bool {
    exists|i: int| 0 <= i < exceptions.len() && covers(#[trigger] exceptions[i], f, path)
}

proof fn lemma_covered(exceptions: Seq<DetectorException>, f: FindingView, path: Seq<char>)
    ensures
        policy::exempted(exceptions, f, path) == covered(exceptions, f, path),
{
    assert forall|i: int| 0 <= i < exceptions.len() implies policy::exempts(
        #[trigger] exceptions[i],
        f,
        path,
    ) == covers(exceptions[i], f, path) by {
        lemma_covers(exceptions[i], f, path);
    }
    if policy::exempted(exceptions, f, path) {
        let i = choose|i: int|
            0 <= i < exceptions.len() && policy::exempts(#[trigger] exceptions[i], f, path);
        assert(covers(exceptions[i], f, path));
    }
    if covered(exceptions, f, path) {
        let i = choose|i: int|
            0 <= i < exceptions.len() && covers(#[trigger] exceptions[i], f, path);
        assert(policy::exempts(exceptions[i], f, path));
    }
}

proof fn lemma_covers(e: DetectorException, f: FindingView, path: Seq<char>)
    ensures
        policy::exempts(e, f, path) == covers(e, f, path),
{
    if let Some(parameter) = e.parameter {
        let name = text::lower_of(text::trim_of(parameter@));
        assert forall|i: int| 0 <= i < f.evidence.len() && name.len() > 0 implies (
        policy::names_parameter(text::lower_of(#[trigger] f.evidence[i].location), name) == is_about(
            f.evidence[i],
            parameter@,
        )) by {}
        if policy::matches_parameter(f.evidence, parameter@) {
            let i = choose|i: int|
                0 <= i < f.evidence.len() && policy::names_parameter(
                    text::lower_of(#[trigger] f.evidence[i].location),
                    name,
                );
            assert(is_about(f.evidence[i], parameter@));
        }
        if exists|i: int|
            0 <= i < f.evidence.len() && is_about(#[trigger] f.evidence[i], parameter@) {
            let i = choose|i: int|
                0 <= i < f.evidence.len() && is_about(#[trigger] f.evidence[i], parameter@);
            assert(policy::names_parameter(text::lower_of(f.evidence[i].location), name));
        }
    }
}

/// How sure a finding must be to reject a request, in millionths.
pub open spec fn least_confidence(config: AppConfig, mode: PolicyMode) -> int {
    let c = config.security.min_block_confidence as int;
    if mode != PolicyMode::Strict {
        c
    } else if c < 700_000 {
        550_000
    } else {
        c - 150_000
    }
}

/// How high a finding must score to reject a request, in millionths.
pub open spec fn least_score(config: AppConfig, mode: PolicyMode) -> int {
    let s = config.security.min_block_score as int;
    if mode != PolicyMode::Strict {
        s
    } else if s < 50_000_000 {
        35_000_000
    } else {
        s - 15_000_000
    }
}

/// What a finding scores: the weight of its severity times its confidence, held between none and
/// all.
pub open spec fn scored(f: FindingView) -> int {
    (match f.severity {
        Severity::Low => 20,
        Severity::Medium => 45,
        Severity::High => 70,
        Severity::Critical => 90int,
    }) * (if f.confidence <= 0 {
        0
    } else if f.confidence >= 1_000_000 {
        1_000_000
    } else {
        f.confidence as int
    })
}

/// Whether a finding rejects a request by itself: its rule blocks, no exception covers it, it is
/// grave, and it is sure and high enough.
pub open spec fn is_decisive(
    config: AppConfig,
    mode: PolicyMode,
    exceptions: Seq<DetectorException>,
    path: Seq<char>,
    f: FindingView,
) -> bool {
    &&& f.mode == RuleMode::Block
    &&& !covered(exceptions, f, path)
    &&& f.severity == Severity::High || f.severity == Severity::Critical
    &&& f.confidence >= least_confidence(config, mode)
    &&& scored(f) >= least_score(config, mode)
}

/// What a finding adds to the risk of a request, in millionths.
pub open spec fn added_risk(f: FindingView) -> int {
    let weight = match f.severity {
        Severity::Low => 2int,
        Severity::Medium => 4,
        Severity::High => 7,
        Severity::Critical => 10,
    };
    match f.attack_class {
        AttackClass::SchemaViolation
        | AttackClass::JwtAbuse
        | AttackClass::BrokenAuthentication => 1_000_000 * weight,
        AttackClass::ObjectEnumeration
        | AttackClass::TenantBoundaryViolation
        | AttackClass::BehaviorAnomaly
        | AttackClass::BruteForce
        | AttackClass::RateLimitExceeded => 1_250_000 * weight,
        _ => 0,
    }
}

/// The risk of a request is that of its source's bad reputation and of each finding.
pub proof fn law_risk_adds_up(findings: Seq<FindingView>, f: FindingView, reputation_score: i32)
    ensures
        policy::risk_of(findings.push(f), reputation_score) == policy::risk_of(
            findings,
            reputation_score,
        ) + added_risk(f),
        reputation_score <= 0 ==> policy::risk_of(Seq::empty(), reputation_score) == 0,
        reputation_score > 0 ==> policy::risk_of(Seq::empty(), reputation_score) == 1_500_000
            * reputation_score,
{
    assert(findings.push(f).drop_last() =~= findings);
}

/// A request is rejected, with status 403, where a finding rejects it by itself or where a critical
/// finding meets a risk that the mode does not bear; in no other case, and never while the mode
/// only monitors. The findings are recorded as they were.
pub proof fn law_rejected(
    config: AppConfig,
    mode: PolicyMode,
    exceptions: Seq<DetectorException>,
    path: Seq<char>,
    reputation_score: i32,
    findings: Seq<FindingView>,
)
    ensures
        ({
            let d = policy::decision_of(
                config,
                mode,
                exceptions,
                path,
                reputation_score,
                findings,
            );
            let risk = policy::risk_of(findings, reputation_score);
            let borne = match mode {
                PolicyMode::Monitor => true,
                PolicyMode::Balanced => risk < 20_000_000,
                PolicyMode::Strict => risk < 12_500_000,
            };
            let decided = mode != PolicyMode::Monitor && exists|i: int|
                0 <= i < findings.len() && is_decisive(
                    config,
                    mode,
                    exceptions,
                    path,
                    #[trigger] findings[i],
                );
            let critical = exists|i: int|
                0 <= i < findings.len() && (#[trigger] findings[i]).severity == Severity::Critical;
            &&& d.findings == findings
            &&& if decided || (critical && !borne) {
                d.outcome == (DecisionOutcomeView::Reject {
                    status_code: 403,
                    message: "request rejected by security policy"@,
                })
            } else {
                d.outcome == DecisionOutcomeView::Allow
            }
            &&& findings.len() > 0 ==> d.risk_score == risk as i128
        }),
{
    let effective = policy::all_excepted(exceptions, findings, path);
    assert forall|i: int| 0 <= i < findings.len() implies {
        &&& (#[trigger] effective[i]).severity == findings[i].severity
        &&& policy::rejects(config, mode, effective[i]) == (mode != PolicyMode::Monitor
            && is_decisive(config, mode, exceptions, path, findings[i]))
    } by {
        lemma_covered(exceptions, findings[i], path);
    }
    if exists|i: int|
        0 <= i < effective.len() && policy::rejects(config, mode, #[trigger] effective[i]) {
        let i = choose|i: int|
            0 <= i < effective.len() && policy::rejects(config, mode, #[trigger] effective[i]);
        assert(is_decisive(config, mode, exceptions, path, findings[i]));
    }
    if exists|i: int|
        0 <= i < findings.len() && is_decisive(
            config,
            mode,
            exceptions,
            path,
            #[trigger] findings[i],
        ) {
        let i = choose|i: int|
            0 <= i < findings.len() && is_decisive(
                config,
                mode,
                exceptions,
                path,
                #[trigger] findings[i],
            );
        assert(effective[i].severity == findings[i].severity);
    }
    if exists|i: int|
        0 <= i < effective.len() && (#[trigger] effective[i]).severity == Severity::Critical {
        let i = choose|i: int|
            0 <= i < effective.len() && (#[trigger] effective[i]).severity == Severity::Critical;
        assert(findings[i].severity == Severity::Critical);
    }
    if exists|i: int|
        0 <= i < findings.len() && (#[trigger] findings[i]).severity == Severity::Critical {
        let i = choose|i: int|
            0 <= i < findings.len() && (#[trigger] findings[i]).severity == Severity::Critical;
        assert(effective[i].severity == Severity::Critical);
    }
}

/// Whether a finding is acted upon: its rule blocks, the mode does more than monitor, and no
/// exception covers it.
pub open spec fn is_acted_on(
    mode: PolicyMode,
    exceptions: Seq<DetectorException>,
    path: Seq<char>,
    f: FindingView,
) -> bool {
    mode != PolicyMode::Monitor && f.mode == RuleMode::Block && !covered(exceptions, f, path)
}

/// Whether the request with a finding of a class is to be stopped, where the finding is acted upon.
pub open spec fn stops_request(class: AttackClass) -> bool {
    marks_source(class) && class != AttackClass::PayloadEvasion || class == AttackClass::MethodAbuse
}

/// Whether the source of a finding of a class is marked, where the finding is acted upon.
pub open spec fn marks_source(class: AttackClass) -> bool {
    ||| class == AttackClass::SqlInjection
    ||| class == AttackClass::Xss
    ||| class == AttackClass::CommandInjection
    ||| class == AttackClass::PathTraversal
    ||| class == AttackClass::HeaderInjection
    ||| class == AttackClass::BrokenAuthentication
    ||| class == AttackClass::AuthAbuse
    ||| class == AttackClass::JwtAbuse
    ||| class == AttackClass::SchemaViolation
    ||| class == AttackClass::TenantBoundaryViolation
    ||| class == AttackClass::PayloadEvasion
}

/// Whether the source of a finding of a class is slowed down, where the finding is acted upon.
pub open spec fn slows_source(class: AttackClass) -> bool {
    ||| class == AttackClass::BruteForce
    ||| class == AttackClass::RateLimitExceeded
    ||| class == AttackClass::BehaviorAnomaly
    ||| class == AttackClass::ObjectEnumeration
    ||| class == AttackClass::ResourceAbuse
}

/// Whether a finding that is acted upon asks for an action.
pub open spec fn asks_for(config: AppConfig, f: FindingView, action: MitigationAction) -> bool {
    match action {
        MitigationAction::BlockRequest => stops_request(f.attack_class),
        MitigationAction::MarkSourceSuspicious { ttl_secs } => marks_source(f.attack_class)
            && ttl_secs == config.security.temp_suspicious_secs,
        MitigationAction::ThrottleSource { ttl_secs } => slows_source(f.attack_class) && ttl_secs
            == config.security.temp_suspicious_secs,
        MitigationAction::BlockSourceIpTemporary { ttl_secs } => f.severity == Severity::Critical
            && ttl_secs == config.security.temp_ban_secs,
    }
}

proof fn lemma_asked(config: AppConfig, f: FindingView, action: MitigationAction)
    ensures
        policy::block_actions(config, f).contains(action) == asks_for(config, f, action),
{
    let base = policy::class_actions(f.attack_class, config.security.temp_suspicious_secs);
    let all = policy::block_actions(config, f);
    assert(base.len() > 0 ==> all[0] == base[0]);
    assert(base.len() > 1 ==> all[1] == base[1]);
    assert(base.len() <= 2);
    assert(f.severity == Severity::Critical ==> all[base.len() as int]
        == (MitigationAction::BlockSourceIpTemporary { ttl_secs: config.security.temp_ban_secs }));
    if asks_for(config, f, action) {
        assert(all[0] == action || all[1] == action || all[2] == action);
    }
}

proof fn lemma_actions(
    config: AppConfig,
    mode: PolicyMode,
    findings: Seq<FindingView>,
    action: MitigationAction,
)
    ensures
        policy::actions_for(config, mode, findings).contains(action) == exists|i: int|
            0 <= i < findings.len() && policy::effective_mode(mode, (#[trigger] findings[i]).mode)
                == RuleMode::Block && asks_for(config, findings[i], action),
    decreases findings.len(),
{
    if findings.len() > 0 {
        let before = findings.drop_last();
        let f = findings.last();
        lemma_actions(config, mode, before, action);
        lemma_asked(config, f, action);
        assert(f == findings[findings.len() - 1]);
        let a = policy::actions_for(config, mode, before);
        let b = policy::block_actions(config, f);
        let all = policy::actions_for(config, mode, findings);
        if a.contains(action) {
            let i = choose|i: int| 0 <= i < a.len() && a[i] == action;
            assert(all[i] == action);
        }
        if policy::effective_mode(mode, f.mode) == RuleMode::Block && b.contains(action) {
            let i = choose|i: int| 0 <= i < b.len() && b[i] == action;
            assert(all[a.len() + i] == action);
        }
        if all.contains(action) {
            let i = choose|i: int| 0 <= i < all.len() && all[i] == action;
            if i < a.len() {
                assert(a[i] == action);
            } else {
                assert(b[i - a.len()] == action);
            }
        }
        assert(forall|i: int| 0 <= i < before.len() ==> #[trigger] before[i] == findings[i]);
        if exists|i: int|
            0 <= i < before.len() && policy::effective_mode(mode, (#[trigger] before[i]).mode)
                == RuleMode::Block && asks_for(config, before[i], action) {
            let i = choose|i: int|
                0 <= i < before.len() && policy::effective_mode(mode, (#[trigger] before[i]).mode)
                    == RuleMode::Block && asks_for(config, before[i], action);
            assert(asks_for(config, findings[i], action));
        }
        if exists|i: int|
            0 <= i < findings.len() && policy::effective_mode(mode, (#[trigger] findings[i]).mode)
                == RuleMode::Block && asks_for(config, findings[i], action) {
            let i = choose|i: int|
                0 <= i < findings.len() && policy::effective_mode(
                    mode,
                    (#[trigger] findings[i]).mode,
                ) == RuleMode::Block && asks_for(config, findings[i], action);
            if i < before.len() {
                assert(asks_for(config, before[i], action));
            }
        }
    }
}

proof fn lemma_first_is_among<A>(s: Seq<A>, key: spec_fn(A) -> Seq<char>, i: int)
    requires
        0 <= i < dedupe::first_by_key(s, key).len(),
    ensures
        s.contains(dedupe::first_by_key(s, key)[i]),
    decreases s.len(),
{
    let all = dedupe::first_by_key(s, key);
    let before = dedupe::first_by_key(s.drop_last(), key);
    if i < before.len() {
        lemma_first_is_among(s.drop_last(), key, i);
        let j = choose|j: int| 0 <= j < s.drop_last().len() && s.drop_last()[j] == before[i];
        assert(s[j] == all[i]);
    } else {
        assert(s[s.len() - 1] == all[i]);
    }
}

/// An action is taken exactly where a finding that is acted upon asks for it, and once.
pub proof fn law_actions_taken(
    config: AppConfig,
    mode: PolicyMode,
    exceptions: Seq<DetectorException>,
    path: Seq<char>,
    reputation_score: i32,
    findings: Seq<FindingView>,
    action: MitigationAction,
)
    ensures
        ({
            let d = policy::decision_of(
                config,
                mode,
                exceptions,
                path,
                reputation_score,
                findings,
            );
            &&& d.actions.contains(action) == exists|i: int|
                0 <= i < findings.len() && is_acted_on(
                    mode,
                    exceptions,
                    path,
                    #[trigger] findings[i],
                ) && asks_for(config, findings[i], action)
            &&& d.actions.no_duplicates()
        }),
{
    if findings.len() > 0 {
        let effective = policy::all_excepted(exceptions, findings, path);
        let all = policy::actions_for(config, mode, effective);
        let key = policy::by_action_key();
        let taken = dedupe::first_by_key(all, key);
        lemma_actions(config, mode, effective, action);
        dedupe::law_first_by_key(all, key);
        assert forall|i: int| 0 <= i < findings.len() implies {
            &&& (policy::effective_mode(mode, (#[trigger] effective[i]).mode) == RuleMode::Block)
                == is_acted_on(mode, exceptions, path, findings[i])
            &&& asks_for(config, effective[i], action) == asks_for(config, findings[i], action)
        } by {
            lemma_covered(exceptions, findings[i], path);
        }
        assert(all.contains(action) == exists|i: int|
            0 <= i < findings.len() && is_acted_on(mode, exceptions, path, #[trigger] findings[i])
                && asks_for(config, findings[i], action)) by {
            if exists|i: int|
                0 <= i < findings.len() && is_acted_on(
                    mode,
                    exceptions,
                    path,
                    #[trigger] findings[i],
                ) && asks_for(config, findings[i], action) {
                let i = choose|i: int|
                    0 <= i < findings.len() && is_acted_on(
                        mode,
                        exceptions,
                        path,
                        #[trigger] findings[i],
                    ) && asks_for(config, findings[i], action);
                assert(asks_for(config, effective[i], action));
            }
            if all.contains(action) {
                let i = choose|i: int|
                    0 <= i < effective.len() && policy::effective_mode(
                        mode,
                        (#[trigger] effective[i]).mode,
                    ) == RuleMode::Block && asks_for(config, effective[i], action);
                assert(is_acted_on(mode, exceptions, path, findings[i]));
            }
        }
        if all.contains(action) {
            let i = choose|i: int| 0 <= i < all.len() && all[i] == action;
            assert(dedupe::has_key(all, key, key(all[i])));
            assert(dedupe::has_key(taken, key, key(action)));
            let j = choose|j: int| 0 <= j < taken.len() && key(#[trigger] taken[j]) == key(action);
            policy::law_action_keys_tell_apart(taken[j], action);
            assert(taken[j] == action);
        }
        if taken.contains(action) {
            let i = choose|i: int| 0 <= i < taken.len() && taken[i] == action;
            lemma_first_is_among(all, key, i);
        }
        assert forall|i: int, j: int| 0 <= i < j < taken.len() implies taken[i] != taken[j] by {
            assert(key(taken[i]) != key(taken[j]));
        }
    }
}

/// The advice that is given for a class of findings, by its key.
pub open spec fn advice_key(class: AttackClass) -> Seq<char> {
    if class == AttackClass::SqlInjection {
        "review_input_validation"@
    } else if class == AttackClass::Xss {
        "tighten_output_encoding"@
    } else if class == AttackClass::CommandInjection {
        "isolate_command_surfaces"@
    } else if class == AttackClass::PathTraversal {
        "restrict_file_path_resolution"@
    } else if class == AttackClass::HeaderInjection {
        "reject_crlf_payloads"@
    } else if class == AttackClass::RequestSmuggling {
        "review_proxy_header_handling"@
    } else if class == AttackClass::Ssrf {
        "enforce_egress_allowlist"@
    } else if class == AttackClass::MethodAbuse {
        "disable_unused_methods"@
    } else if class == AttackClass::PayloadEvasion {
        "increase_inspection_depth"@
    } else if class == AttackClass::SchemaViolation {
        "tighten_api_schema"@
    } else if class == AttackClass::ResponseLeak {
        "inspect_response_contracts"@
    } else if class == AttackClass::BrokenAuthentication || class == AttackClass::JwtAbuse || class
        == AttackClass::AuthAbuse {
        "review_auth_policy"@
    } else if class == AttackClass::MissingSecurityHeaders || class
        == AttackClass::SecurityMisconfiguration {
        "add_security_headers"@
    } else if class == AttackClass::ObjectEnumeration || class
        == AttackClass::TenantBoundaryViolation {
        "harden_object_authorization"@
    } else if class == AttackClass::ShadowApi || class == AttackClass::ApiInventory {
        "review_shadow_routes"@
    } else {
        "enable_progressive_delay"@
    }
}

/// Whether advice is given for a finding: where nothing is done about it by itself, or where it is
/// acted upon and is of a class for which there is no action.
pub open spec fn is_advised(
    mode: PolicyMode,
    exceptions: Seq<DetectorException>,
    path: Seq<char>,
    f: FindingView,
) -> bool {
    !is_acted_on(mode, exceptions, path, f) || !(stops_request(f.attack_class) || marks_source(
        f.attack_class,
    ) || slows_source(f.attack_class))
}

proof fn lemma_advice(mode: PolicyMode, findings: Seq<FindingView>, k: Seq<char>)
    ensures
        dedupe::has_key(policy::advice_for(mode, findings), policy::by_advice_key(), k) == exists|
            i: int,
        |
            0 <= i < findings.len() && advice_key((#[trigger] findings[i]).attack_class) == k && (
            policy::effective_mode(mode, findings[i].mode) != RuleMode::Block || !(stops_request(
                findings[i].attack_class,
            ) || marks_source(findings[i].attack_class) || slows_source(findings[i].attack_class))),
    decreases findings.len(),
{
    let key = policy::by_advice_key();
    if findings.len() > 0 {
        let before = findings.drop_last();
        let f = findings.last();
        lemma_advice(mode, before, k);
        assert(f == findings[findings.len() - 1]);
        let some = policy::advice_for(mode, before);
        let all = policy::advice_for(mode, findings);
        let r = policy::recommendation_for(f.attack_class);
        assert(r.action_key == advice_key(f.attack_class));
        let given = policy::effective_mode(mode, f.mode) != RuleMode::Block || !(stops_request(
            f.attack_class,
        ) || marks_source(f.attack_class) || slows_source(f.attack_class));
        assert(all =~= (if given {
            some.push(r)
        } else {
            some
        }));
        if dedupe::has_key(some, key, k) {
            let i = choose|i: int| 0 <= i < some.len() && key(#[trigger] some[i]) == k;
            assert(key(all[i]) == k);
        }
        if given && advice_key(f.attack_class) == k {
            assert(key(all[all.len() - 1]) == k);
        }
        if dedupe::has_key(all, key, k) {
            let i = choose|i: int| 0 <= i < all.len() && key(#[trigger] all[i]) == k;
            if i < some.len() {
                assert(key(some[i]) == k);
            }
        }
        assert(forall|i: int| 0 <= i < before.len() ==> #[trigger] before[i] == findings[i]);
        if exists|i: int|
            0 <= i < before.len() && advice_key((#[trigger] before[i]).attack_class) == k && (
            policy::effective_mode(mode, before[i].mode) != RuleMode::Block || !(stops_request(
                before[i].attack_class,
            ) || marks_source(before[i].attack_class) || slows_source(before[i].attack_class))) {
            let i = choose|i: int|
                0 <= i < before.len() && advice_key((#[trigger] before[i]).attack_class) == k && (
                policy::effective_mode(mode, before[i].mode) != RuleMode::Block || !(stops_request(
                    before[i].attack_class,
                ) || marks_source(before[i].attack_class) || slows_source(
                    before[i].attack_class,
                )));
            assert(findings[i] == before[i]);
        }
        if exists|i: int|
            0 <= i < findings.len() && advice_key((#[trigger] findings[i]).attack_class) == k && (
            policy::effective_mode(mode, findings[i].mode) != RuleMode::Block || !(stops_request(
                findings[i].attack_class,
            ) || marks_source(findings[i].attack_class) || slows_source(findings[i].attack_class))) {
            let i = choose|i: int|
                0 <= i < findings.len() && advice_key((#[trigger] findings[i]).attack_class) == k && (
                policy::effective_mode(mode, findings[i].mode) != RuleMode::Block || !(stops_request(
                findings[i].attack_class,
            ) || marks_source(findings[i].attack_class) || slows_source(findings[i].attack_class)));
            if i < before.len() {
                assert(advice_key(before[i].attack_class) == k);
            }
        }
    }
}

/// Advice is given exactly where a finding calls for it, and once under each key.
pub proof fn law_advice_given(
    config: AppConfig,
    mode: PolicyMode,
    exceptions: Seq<DetectorException>,
    path: Seq<char>,
    reputation_score: i32,
    findings: Seq<FindingView>,
    k: Seq<char>,
)
    ensures
        ({
            let d = policy::decision_of(
                config,
                mode,
                exceptions,
                path,
                reputation_score,
                findings,
            );
            &&& (exists|i: int|
                0 <= i < d.recommendations.len() && (#[trigger] d.recommendations[i]).action_key == k)
                == exists|i: int|
                0 <= i < findings.len() && advice_key((#[trigger] findings[i]).attack_class) == k
                    && is_advised(mode, exceptions, path, findings[i])
            &&& forall|i: int, j: int|
                0 <= i < j < d.recommendations.len() ==> (#[trigger] d.recommendations[i]).action_key
                    != (#[trigger] d.recommendations[j]).action_key
        }),
{
    if findings.len() > 0 {
        let d = policy::decision_of(config, mode, exceptions, path, reputation_score, findings);
        let effective = policy::all_excepted(exceptions, findings, path);
        let all = policy::advice_for(mode, effective);
        let key = policy::by_advice_key();
        lemma_advice(mode, effective, k);
        dedupe::law_first_by_key(all, key);
        assert(dedupe::has_key(d.recommendations, key, k) == dedupe::has_key(all, key, k));
        assert forall|i: int| 0 <= i < findings.len() implies {
            &&& (policy::effective_mode(mode, (#[trigger] effective[i]).mode) == RuleMode::Block)
                == is_acted_on(mode, exceptions, path, findings[i])
            &&& effective[i].attack_class == findings[i].attack_class
        } by {
            lemma_covered(exceptions, findings[i], path);
        }
        if exists|i: int|
            0 <= i < findings.len() && advice_key((#[trigger] findings[i]).attack_class) == k
                && is_advised(mode, exceptions, path, findings[i]) {
            let i = choose|i: int|
                0 <= i < findings.len() && advice_key((#[trigger] findings[i]).attack_class) == k
                    && is_advised(mode, exceptions, path, findings[i]);
            assert(advice_key(effective[i].attack_class) == k);
        }
        if dedupe::has_key(d.recommendations, key, k) {
            let i = choose|i: int|
                0 <= i < effective.len() && advice_key((#[trigger] effective[i]).attack_class) == k
                    && (policy::effective_mode(mode, effective[i].mode) != RuleMode::Block || !(
                stops_request(effective[i].attack_class) || marks_source(effective[i].attack_class)
                    || slows_source(effective[i].attack_class)));
            assert(is_advised(mode, exceptions, path, findings[i]));
            let j = choose|j: int|
                0 <= j < d.recommendations.len() && key(#[trigger] d.recommendations[j]) == k;
            assert(d.recommendations[j].action_key == k);
        }
        if exists|i: int|
            0 <= i < d.recommendations.len() && (#[trigger] d.recommendations[i]).action_key == k {
            let i = choose|i: int|
                0 <= i < d.recommendations.len() && (#[trigger] d.recommendations[i]).action_key
                    == k;
            assert(key(d.recommendations[i]) == k);
        }
        assert forall|i: int, j: int| 0 <= i < j < d.recommendations.len() implies (
        #[trigger] d.recommendations[i]).action_key != (#[trigger] d.recommendations[j]).action_key by {
            assert(key(d.recommendations[i]) != key(d.recommendations[j]));
        }
    }
}

} // verus!
