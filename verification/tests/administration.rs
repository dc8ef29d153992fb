use api_firewall::access::filter_suppressed_findings;
use api_firewall::bundles::{
    canonical_policy, complete_bundle, compute_live_policy_digest, compute_policy_diff,
    escalate_refusal_alert, export_live_policy_state, import_live_policy, latest_policy_diff,
    make_policy_bundle, make_policy_bundle_id, make_restore_refusal_alert, restore_policy_bundle,
    restore_refusal_severity_for_count, tamper_policy_bundle, update_restore_refusal_alert_status,
    verify_policy_bundle,
};
use api_firewall::config::{DetectorException, PolicyMode, RouteRateLimitOverride, RuleMode};
use api_firewall::contracts::{
    approve_response_contract_from_event, build_response_contract_from_mismatch_event,
    check_contract, evaluate_release_guard, is_valid_release_transition, promote_managed_spec_release,
};
use api_firewall::control_plane::{
    actor_from_headers, baseline_limit, delete_route_behavior_override, delete_route_override,
    delete_route_rate_limit, set_global_rule_mode, upsert_route_behavior_override,
    upsert_route_override, upsert_route_rate_limit,
};
use api_firewall::exports::{
    export_envoy_inventory, export_gateway_enforcement_inventory, export_gateway_variant,
    export_kong_inventory, GatewayVariant,
};
use api_firewall::headers::Headers;
use api_firewall::recommendations::build_contract_recommendations;
use api_firewall::records::{AnalystSuppression, ManagedSpecReleaseState};
use api_firewall::requests::{
    AuditSearchFilters, EventSearchFilters, PolicyTimelineQuery, PromoteManagedSpecReleaseRequest,
    SetGlobalRuleModeRequest, UpsertRouteBehaviorOverrideRequest, UpsertRouteOverrideRequest,
    UpsertRouteRateLimitRequest,
};
use api_firewall::storage::{
    action_columns, event_columns, metrics_snapshot, metrics_sql, normalize_rfc3339, query_admin_audits,
    query_policy_timeline_page, query_security_events, read_action,
    recent_response_contract_mismatch_events, suppression_key, SqlValue,
};
use api_firewall::table::Table;
use api_firewall::types::{
    AttackClass, DecisionOutcome, Finding, FindingEvidence, LivePolicyImportRequest,
    LivePolicyState, ManagedSpecRoute, MitigationAction, ResponseContract, SecurityDecision,
    SecurityEvent, Severity,
};

fn policy() -> LivePolicyState {
    let mut modes = Table::new();
    modes.insert("b".to_string(), RuleMode::Block);
    modes.insert("a".to_string(), RuleMode::Recommend);
    LivePolicyState {
        version: 3,
        previous_version: Some(2),
        policy_mode: PolicyMode::Balanced,
        global_rule_modes: modes,
        route_overrides: Vec::new(),
        route_rate_limits: vec![RouteRateLimitOverride {
            path_prefix: "/x".to_string(),
            requests_per_window: 5,
            window_secs: 6,
        }],
        route_behavior_overrides: Vec::new(),
        detector_exceptions: Vec::new(),
        updated_at: None,
    }
}

fn contract() -> ResponseContract {
    ResponseContract {
        method: "GET".to_string(),
        normalized_path: "/orders".to_string(),
        expected_status: 200,
        expected_content_type_prefix: "application/json".to_string(),
        required_headers: vec!["x-trace".to_string()],
        approved_at: 0,
        approved_by: "ops".to_string(),
        note: None,
    }
}

fn mismatch_event(status: u16, id: &str) -> SecurityEvent {
    let found = match check_contract(
        &policy(),
        "/orders",
        "GET",
        "/orders",
        &contract(),
        status,
        &Headers::new(),
    ) {
        Some(f) => f,
        None => panic!("the response breaks the contract"),
    };
    SecurityEvent {
        request_id: id.to_string(),
        timestamp: 0,
        source_ip: "10.0.0.1".to_string(),
        method: "get".to_string(),
        path: "/orders".to_string(),
        normalized_route: None,
        findings: vec![found],
        decision: SecurityDecision {
            outcome: DecisionOutcome::Allow,
            actions: Vec::new(),
            recommendations: Vec::new(),
            findings: Vec::new(),
            summary: "s".to_string(),
            risk_score: 0,
        },
    }
}

#[test]
fn the_digest_does_not_depend_on_the_order_of_rules() {
    let export = export_live_policy_state(&policy(), 1);
    assert_eq!(
        canonical_policy(&export),
        "{\"global_rule_modes\":[[\"a\",\"recommend\"],[\"b\",\"block\"]],\
\"route_behavior_overrides\":[],\"route_overrides\":[],\
\"route_rate_limits\":[{\"path_prefix\":\"/x\",\"requests_per_window\":5,\"window_secs\":6}]}"
    );
    let digest = compute_live_policy_digest(&export);
    assert_eq!(digest.len(), 64);
    assert!(digest.chars().all(|c| c.is_ascii_hexdigit()));
    let later = export_live_policy_state(&policy(), 2);
    assert_eq!(compute_live_policy_digest(&later), digest);
}

#[test]
fn names_are_quoted_in_the_canonical_form() {
    let mut live = policy();
    let mut modes = Table::new();
    modes.insert("a\"b\\c\n\u{1}\u{e9}".to_string(), RuleMode::DetectOnly);
    live.global_rule_modes = modes;
    live.route_rate_limits = Vec::new();
    assert_eq!(
        canonical_policy(&export_live_policy_state(&live, 1)),
        "{\"global_rule_modes\":[[\"a\\\"b\\\\c\\n\\u0001\u{e9}\",\"detect_only\"]],\
\"route_behavior_overrides\":[],\"route_overrides\":[],\"route_rate_limits\":[]}"
    );
}

#[test]
fn a_saved_policy_is_restored() {
    let bundle =
        make_policy_bundle("bundle-1".to_string(), "ops".to_string(), None, &policy(), 1);
    let mut live = policy();
    live.global_rule_modes = Table::new();
    live.route_rate_limits = Vec::new();
    let changed = export_live_policy_state(&live, 2);
    let diff = compute_policy_diff(&changed, &bundle.live_policy, None, 3);
    assert!(diff.has_changes && diff.global_rule_modes_changed && diff.route_rate_limits_changed);
    assert!(!diff.route_overrides_changed && !diff.policy_mode_changed);

    let verified = verify_policy_bundle(&bundle, &changed, 3);
    assert!(verified.digest_match && !verified.matches_live_policy);

    assert_eq!(restore_policy_bundle(&mut live, &bundle), Ok(()));
    let restored = export_live_policy_state(&live, 4);
    assert_eq!(compute_live_policy_digest(&restored), bundle.digest_sha256);
    let diff = latest_policy_diff(&restored, Some(&bundle), 5);
    assert!(!diff.has_changes);
    assert_eq!(diff.bundle_id.as_deref(), Some("bundle-1"));
}

#[test]
fn a_mode_or_an_exception_alone_is_no_change_of_the_rules() {
    let saved = export_live_policy_state(&policy(), 1);
    let mut live = policy();
    live.policy_mode = PolicyMode::Monitor;
    live.detector_exceptions = vec![DetectorException {
        detector_id: "sqli".to_string(),
        path_prefix: None,
        parameter: None,
        min_confidence: None,
        monitor_only: true,
        reason: None,
    }];
    let diff = compute_policy_diff(&export_live_policy_state(&live, 2), &saved, None, 3);
    assert!(diff.policy_mode_changed && diff.detector_exceptions_changed);
    assert!(!diff.has_changes);
}

#[test]
fn a_changed_bundle_is_refused() {
    let bundle =
        make_policy_bundle("bundle-1".to_string(), "ops".to_string(), None, &policy(), 1);
    let stored = bundle.digest_sha256.clone();
    let bad = tamper_policy_bundle(bundle, None);
    assert_eq!(bad.digest_sha256, stored);
    let mut live = policy();
    let before = canonical_policy(&export_live_policy_state(&live, 0));
    match restore_policy_bundle(&mut live, &bad) {
        Err(recomputed) => assert!(recomputed != stored),
        Ok(()) => panic!("a changed bundle is to be refused"),
    }
    assert_eq!(canonical_policy(&export_live_policy_state(&live, 0)), before);

    let mut blank = bad;
    blank.digest_sha256 = String::new();
    let filled = complete_bundle(blank);
    assert_eq!(filled.digest_sha256, compute_live_policy_digest(&filled.live_policy));
}

#[test]
fn refusals_raise_alerts() {
    assert_eq!(restore_refusal_severity_for_count(2), "high");
    assert_eq!(restore_refusal_severity_for_count(3), "critical");
    let alert = make_restore_refusal_alert(
        "17",
        "ops".to_string(),
        "bundle-1".to_string(),
        "digest mismatch".to_string(),
        "a".to_string(),
        "b".to_string(),
        9,
    );
    assert_eq!(alert.alert_id, "alert-17");
    assert_eq!(alert.status, "open");
    let alert = escalate_refusal_alert(alert, 3);
    assert_eq!(alert.severity, "critical");
    let closed = update_restore_refusal_alert_status(Some(alert), "resolved", "lead");
    assert!(matches!(closed, Some(a) if a.status == "resolved" && a.latest_actor == "lead"));
    assert!(update_restore_refusal_alert_status(None, "resolved", "lead").is_none());
}

#[test]
fn bundle_ids_hold_the_time() {
    assert_eq!(make_policy_bundle_id(0).as_deref(), Some("bundle-19700101000000"));
    assert_eq!(make_policy_bundle_id(1_700_000_000).as_deref(), Some("bundle-20231114221320"));
    assert_eq!(make_policy_bundle_id(i64::MAX), None);
}

#[test]
fn an_import_takes_the_place_of_the_rules() {
    let mut live = policy();
    import_live_policy(
        &mut live,
        LivePolicyImportRequest {
            policy_mode: Some(PolicyMode::Strict),
            global_rule_modes: Table::new(),
            route_overrides: Vec::new(),
            route_rate_limits: Vec::new(),
            route_behavior_overrides: Vec::new(),
            detector_exceptions: Vec::new(),
        },
    );
    assert_eq!(live.global_rule_modes.len(), 0);
    assert!(live.route_rate_limits.is_empty());
    assert_eq!(live.version, 3);
}

#[test]
fn contracts_are_read_back_from_their_mismatch() {
    let event = mismatch_event(500, "r-1");
    let back = build_response_contract_from_mismatch_event(&event, "lead".to_string(), None, 8);
    match back {
        Some(c) => {
            assert_eq!(c.method, "GET");
            assert_eq!(c.normalized_path, "/orders");
            assert_eq!(c.expected_status, 200);
            assert_eq!(c.expected_content_type_prefix, "application/json");
            assert_eq!(c.required_headers, vec!["x-trace".to_string()]);
            assert_eq!(c.approved_by, "lead");
        }
        None => panic!("the event holds the contract"),
    }
    let events = vec![event];
    let approved =
        approve_response_contract_from_event(&events, "r-1", "lead".to_string(), None, 8);
    assert!(matches!(approved, Ok(c) if c.expected_status == 200));
    let unknown = approve_response_contract_from_event(&events, "r-2", "lead".to_string(), None, 8);
    assert!(matches!(unknown, Err(e) if e == "request_id not found"));
    let mut other = mismatch_event(500, "r-3");
    other.findings = vec![plain_finding("one")];
    let wrong =
        approve_response_contract_from_event(&vec![other], "r-3", "lead".to_string(), None, 8);
    assert!(matches!(wrong, Err(e) if e == "event is not a response.contract_mismatch"));
    let mut h = Headers::new();
    h.append("content-type", Some("application/json; charset=utf-8".to_string()));
    h.append("x-trace", Some("1".to_string()));
    assert!(check_contract(&policy(), "/orders", "GET", "/orders", &contract(), 200, &h).is_none());
}

#[test]
fn recommendations_take_what_is_seen_most() {
    let events = vec![mismatch_event(500, "1"), mismatch_event(404, "2")];
    let set = build_contract_recommendations(&events, 3);
    assert_eq!(set.generated_at, 3);
    assert_eq!(set.items.len(), 1);
    assert_eq!(set.items[0].recommended_status, 200);
    assert_eq!(set.items[0].supporting_events, 2);
    assert_eq!(set.items[0].recommended_required_headers, vec!["x-trace".to_string()]);
}

#[test]
fn release_channels_follow_one_another() {
    assert!(is_valid_release_transition(None, "draft"));
    assert!(!is_valid_release_transition(None, "approved"));
    assert!(is_valid_release_transition(Some("draft"), "approved"));
    assert!(!is_valid_release_transition(Some("draft"), "exported"));
    assert!(is_valid_release_transition(Some("approved"), "exported"));

    let state = |channel: &str| ManagedSpecReleaseState {
        method: "GET".to_string(),
        normalized_path: "/orders".to_string(),
        channel: channel.to_string(),
        updated_at: 0,
        updated_by: "ops".to_string(),
        note: None,
    };
    let request = || PromoteManagedSpecReleaseRequest {
        method: "GET".to_string(),
        normalized_path: "/orders".to_string(),
        target_channel: "exported".to_string(),
        note: None,
    };
    let refused = evaluate_release_guard(&Vec::new(), &Vec::new(), "get", "/orders", "exported");
    assert!(!refused.allowed);
    assert_eq!(refused.reasons.len(), 2);
    assert_eq!(refused.method, "GET");

    let early = promote_managed_spec_release(
        &vec![contract()],
        &vec![state("draft")],
        request(),
        "lead".to_string(),
        4,
    );
    assert!(early.is_err());
    let due = promote_managed_spec_release(
        &vec![contract()],
        &vec![state("approved")],
        request(),
        "lead".to_string(),
        4,
    );
    assert!(matches!(due, Ok(s) if s.channel == "exported" && s.updated_by == "lead"));
}

#[test]
fn exports_list_the_managed_routes() {
    let routes = vec![ManagedSpecRoute {
        method: "GET".to_string(),
        normalized_path: "/orders".to_string(),
        managed_at: 0,
        managed_by: "ops".to_string(),
        auth_required: true,
        note: None,
    }];
    let out = export_gateway_enforcement_inventory(&routes, &vec![contract()], &Vec::new(), 5);
    assert_eq!(out.routes.len(), 1);
    assert_eq!(out.routes[0].expected_status, Some(200));
    assert_eq!(out.routes[0].release_channel, None);
    let kong = export_kong_inventory(&routes, &Vec::new(), &Vec::new(), 5);
    assert_eq!(kong.services.len(), 1);
    assert!(kong.services[0].required_headers.is_empty());
    let envoy = export_envoy_inventory(&routes, &Vec::new(), 5);
    assert_eq!(envoy.routes[0].match_path, "/orders");
    assert!(matches!(export_gateway_variant("gateway-routing-only"), GatewayVariant::RoutingOnly));
    assert!(matches!(export_gateway_variant("anything"), GatewayVariant::ManagedSpec));
}

#[test]
fn what_is_upserted_can_be_deleted() {
    let mut live = policy();
    set_global_rule_mode(
        &mut live,
        &SetGlobalRuleModeRequest { rule_id: "a".to_string(), mode: RuleMode::Block },
    );
    assert_eq!(live.global_rule_modes.get("a"), Some(&RuleMode::Block));

    upsert_route_override(
        &mut live,
        &UpsertRouteOverrideRequest { path_prefix: "/y".to_string(), rule_modes: Table::new() },
    );
    assert_eq!(live.route_overrides.len(), 1);
    assert!(delete_route_override(&mut live, "/y"));
    assert!(!delete_route_override(&mut live, "/y"));

    let limit = |n: u64| UpsertRouteRateLimitRequest {
        path_prefix: "/y".to_string(),
        requests_per_window: n,
        window_secs: 1,
    };
    upsert_route_rate_limit(&mut live, &limit(1));
    upsert_route_rate_limit(&mut live, &limit(2));
    assert_eq!(live.route_rate_limits.len(), 2);
    assert!(live.route_rate_limits.iter().any(|l| l.requests_per_window == 2));
    assert!(delete_route_rate_limit(&mut live, "/y"));

    upsert_route_behavior_override(
        &mut live,
        &UpsertRouteBehaviorOverrideRequest {
            path_prefix: "/y".to_string(),
            warmup_min_samples: Some(1),
            object_enumeration_threshold: None,
            object_window_secs: None,
        },
    );
    assert!(delete_route_behavior_override(&mut live, "/y"));
    assert!(live.route_behavior_overrides.is_empty());
    assert_eq!(baseline_limit(None), 50);
    assert_eq!(baseline_limit(Some(0)), 1);
    assert_eq!(baseline_limit(Some(501)), 500);
}

#[test]
fn actors_are_named_by_a_header() {
    let mut h = Headers::new();
    let nobody = actor_from_headers(&h);
    h.append("x-admin-actor", Some("lead".to_string()));
    assert_eq!(actor_from_headers(&h), "lead");
    assert!(nobody != "lead");
}

fn plain_finding(rule_id: &str) -> Finding {
    Finding {
        rule_id: rule_id.to_string(),
        attack_class: AttackClass::Xss,
        severity: Severity::Low,
        confidence: 500_000,
        message: "m".to_string(),
        evidence: vec![FindingEvidence {
            location: "l".to_string(),
            value_preview: "v".to_string(),
        }],
        mode: RuleMode::DetectOnly,
    }
}

#[test]
fn suppressed_findings_are_left_out() {
    let suppressions = vec![AnalystSuppression {
        rule_id: "one".to_string(),
        path_prefix: Some("/api".to_string()),
        created_at: 0,
        created_by: "ops".to_string(),
        reason: None,
    }];
    let kept = filter_suppressed_findings(
        &suppressions,
        "/api/x",
        vec![plain_finding("one"), plain_finding("two")],
    );
    assert_eq!(kept.len(), 1);
    assert_eq!(kept[0].rule_id, "two");
    let kept = filter_suppressed_findings(&suppressions, "/other", vec![plain_finding("one")]);
    assert_eq!(kept.len(), 1);
}

fn no_event_filters() -> EventSearchFilters {
    EventSearchFilters {
        source_ip: None,
        rule_id: None,
        severity: None,
        method: None,
        path_contains: None,
        since: None,
        until: None,
        limit: None,
        offset: None,
    }
}

fn shown(values: &Vec<SqlValue>) -> Vec<String> {
    values
        .iter()
        .map(|v| match v {
            SqlValue::Text(t) => t.clone(),
            SqlValue::Integer(n) => n.to_string(),
        })
        .collect()
}

#[test]
fn searches_become_queries() {
    let mut filters = no_event_filters();
    filters.severity = Some("HIGH".to_string());
    filters.path_contains = Some("orders".to_string());
    filters.since = Some("2024-01-01T02:00:00+02:00".to_string());
    filters.limit = Some(7);
    let query = match query_security_events(&filters) {
        Ok(q) => q,
        Err(e) => panic!("{}", e),
    };
    assert_eq!(
        query.sql,
        "SELECT event_json FROM security_events WHERE 1=1 AND highest_severity = ? AND path LIKE ? \
AND timestamp >= ? ORDER BY timestamp DESC LIMIT ? OFFSET ?"
    );
    assert_eq!(
        shown(&query.values),
        vec!["high", "%orders%", "2024-01-01T00:00:00+00:00", "7", "0"]
    );

    filters.since = Some("yesterday".to_string());
    assert!(query_security_events(&filters).is_err());
    assert!(normalize_rfc3339("yesterday").is_err());

    let audits = AuditSearchFilters {
        actor: Some("ops".to_string()),
        action: None,
        target: None,
        since: None,
        until: None,
        limit: None,
        offset: Some(3),
    };
    assert!(matches!(query_admin_audits(&audits), Ok(q) if q.values.len() == 3));

    let page = query_policy_timeline_page(&PolicyTimelineQuery {
        actor: None,
        action: None,
        target_contains: None,
        result: None,
        limit: None,
        offset: None,
        sort_dir: Some("asc".to_string()),
    });
    assert_eq!(page.limit, 50);
    assert_eq!(page.sort_dir, "asc");
    assert!(page.page.sql.contains("ORDER BY timestamp ASC"));

    let wanted = recent_response_contract_mismatch_events(5);
    assert_eq!(wanted.rule_id.as_deref(), Some("response.contract_mismatch"));
}

#[test]
fn records_become_columns() {
    let event = mismatch_event(500, "r");
    let columns = event_columns(&event);
    assert_eq!(columns.rule_ids, "response.contract_mismatch");
    assert_eq!(columns.outcome, "allow");

    for action in [
        MitigationAction::BlockSourceIpTemporary { ttl_secs: 3 },
        MitigationAction::ThrottleSource { ttl_secs: 4 },
        MitigationAction::MarkSourceSuspicious { ttl_secs: 5 },
    ] {
        let (kind, ttl) = action_columns(&action);
        assert_eq!(read_action(&kind, ttl), action);
    }
    assert_eq!(suppression_key("r", None), "r|*");
    assert_eq!(suppression_key("r", Some("/a")), "r|/a");
}

#[test]
fn counts_become_metrics() {
    let queries = metrics_sql();
    assert_eq!(queries[1], "SELECT COUNT(*) FROM security_events WHERE outcome LIKE 'reject:%'");
    let counts: Vec<i64> = (0..queries.len() as i64).collect();
    match metrics_snapshot(&counts, Some("a,b".to_string())) {
        Some(m) => {
            assert_eq!(m.total_events, 0);
            assert_eq!(m.blocked_events, 1);
            assert_eq!(m.critical_restore_refusal_alerts, 21);
            assert_eq!(m.latest_rule_ids, "a,b");
        }
        None => panic!("every count is there"),
    }
    assert!(metrics_snapshot(&vec![1, 2], None).is_none());
}
