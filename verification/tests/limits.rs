use api_firewall::behavior::{
    complete_evaluation, evaluate_request, evaluate_request_with_headers, BehaviorReading,
};
use api_firewall::config::{
    AdminAuthConfig, AppConfig, AuthConfig, BehaviorConfig, ConfigError, ControlPlaneConfig,
    DiscoveryConfig, JwtConfig, PolicyMode, ProxyConfig, RateLimitConfig, ResponseSecurityConfig,
    RuleMode, SecurityConfig, ServerConfig, SpecConfig, StorageConfig, TelemetryConfig,
};
use api_firewall::headers::Headers;
use api_firewall::mitigation::{
    block_count, blocks_fit, clear_source_state, demo_one_click_commands, demo_recommendations,
    finalize_blocking_decision, hydrate_state, recommendation_to_command, TemporaryMitigationStore, LATEST, SECOND,
};
use api_firewall::net::canonical_ip;
use api_firewall::rate_limit::{purge_old_hits, RateLimiter};
use api_firewall::store::ActiveMitigation;
use api_firewall::table::Table;
use api_firewall::telemetry_delivery::{
    backoff_ms, classify_status, is_retryable_status, map_security_event, next_step, Attempt,
    DeliveryFailure, DeliveryOutcome, DeliveryStep, QueueOutcome, TelemetryDelivery,
};
use api_firewall::types::{
    AttackClass, AuthStatus, DecisionOutcome, Finding, FindingEvidence, LivePolicyState,
    MitigationAction, OperatorActionKind, RequestContext, SecurityDecision, SecurityEvent,
    Severity, SourceReputation,
};

fn base_config() -> AppConfig {
    AppConfig {
        server: ServerConfig {
            public_bind_addr: "127.0.0.1:8080".to_string(),
            admin_bind_addr: "127.0.0.1:9090".to_string(),
            trust_x_forwarded_for: false,
            environment: "development".to_string(),
            admin_public_health_enabled: false,
        },
        proxy: ProxyConfig {
            upstream_base_url: "http://127.0.0.1:3000".to_string(),
            connect_timeout_secs: 3,
            request_timeout_secs: 15,
            pool_idle_timeout_secs: 30,
            max_body_bytes: 1_048_576,
        },
        security: SecurityConfig {
            blocked_methods: vec!["TRACE".to_string()],
            request_id_header: "x-request-id".to_string(),
            inspect_headers: true,
            inspect_query_string: true,
            inspect_body: true,
            max_inspection_body_bytes: 65_536,
            temp_ban_secs: 300,
            temp_suspicious_secs: 600,
            suspicious_score_threshold: 10,
            rate_limit: RateLimitConfig { requests_per_window: 100, window_secs: 60 },
            rule_modes: Table::new(),
            policy_mode: PolicyMode::Balanced,
            min_block_confidence: 800_000,
            min_block_score: 50_000_000,
            detector_exceptions: Vec::new(),
            route_overrides: Vec::new(),
            route_rate_limits: Vec::new(),
            route_behavior_overrides: Vec::new(),
        },
        telemetry: TelemetryConfig {
            log_level: "info".to_string(),
            security_event_log_path: "logs/events.jsonl".to_string(),
        },
        control_plane: ControlPlaneConfig::default(),
        auth: AuthConfig {
            enabled: false,
            header_name: "x-api-key".to_string(),
            api_keys: vec!["key-one".to_string()],
            protected_path_prefixes: vec!["/api".to_string()],
            admin: AdminAuthConfig {
                enabled: true,
                header_name: "x-admin-token".to_string(),
                token: "a-long-random-value".to_string(),
            },
        },
        storage: StorageConfig { sqlite_path: "data/firewall.db".to_string() },
        spec: SpecConfig::default(),
        jwt: JwtConfig::default(),
        behavior: BehaviorConfig::default(),
        response_security: ResponseSecurityConfig::default(),
        discovery: DiscoveryConfig::default(),
    }
}

const SEC: u64 = 1_000_000_000;

fn sample_event(outcome: DecisionOutcome) -> SecurityEvent {
    SecurityEvent {
        request_id: "request-1".to_string(),
        timestamp: 0,
        source_ip: "203.0.113.10".to_string(),
        method: "POST".to_string(),
        path: "/api/orders".to_string(),
        normalized_route: Some("/api/{id}".to_string()),
        findings: vec![Finding {
            rule_id: "sqli.basic".to_string(),
            attack_class: AttackClass::SqlInjection,
            severity: Severity::High,
            confidence: 910_000,
            message: "SQL injection pattern".to_string(),
            evidence: vec![FindingEvidence {
                location: "query".to_string(),
                value_preview: "redacted-ish preview".to_string(),
            }],
            mode: RuleMode::Block,
        }],
        decision: SecurityDecision {
            outcome,
            actions: Vec::new(),
            recommendations: Vec::new(),
            findings: Vec::new(),
            summary: "test".to_string(),
            risk_score: 910_000,
        },
    }
}

fn telemetry_config(queue_capacity: usize) -> ControlPlaneConfig {
    ControlPlaneConfig {
        telemetry_enabled: true,
        ingestion_url: "https://plane.example/ingest".to_string(),
        api_key: "k".to_string(),
        firewall_instance_id: "fw".to_string(),
        queue_capacity,
        ..ControlPlaneConfig::default()
    }
}

#[test]
fn maps_security_event_to_control_plane_payload_without_secret_fields() {
    let event = sample_event(DecisionOutcome::Reject {
        status_code: 403,
        message: "blocked".to_string(),
    });

    let payload = map_security_event(&event, "firewall-1");

    assert_eq!(payload.firewall_instance_id, "firewall-1");
    assert_eq!(payload.event_type, "attack");
    assert_eq!(payload.attack_type, "sql_injection");
    assert_eq!(payload.severity, "high");
    assert_eq!(payload.action_taken, "blocked");
    assert_eq!(payload.request_id.as_deref(), Some("request-1"));

    let shown = format!("{:?}", payload);
    assert!(!shown.contains("authorization"));
    assert!(!shown.contains("api_key"));
    assert!(!shown.contains("password"));
    assert!(!shown.contains("redacted-ish preview"));
}

#[test]
fn retry_classification_matches_ingestion_contract() {
    assert!(is_retryable_status(408));
    assert!(is_retryable_status(429));
    assert!(is_retryable_status(500));
    assert!(!is_retryable_status(400));
    assert!(!is_retryable_status(401));
    assert!(!is_retryable_status(403));
}

#[test]
fn disabled_telemetry_does_not_enqueue() {
    let mut delivery = TelemetryDelivery::disabled();
    assert!(delivery.prepare(&sample_event(DecisionOutcome::Allow)).is_none());
    delivery.enqueue(&sample_event(DecisionOutcome::Allow));
    let snapshot = delivery.snapshot();
    assert_eq!(snapshot.dropped_total, 0);
    assert_eq!(snapshot.sent_total, 0);
}

#[test]
fn full_queue_drops_newest_event() {
    let (mut delivery, _receiver) = match TelemetryDelivery::new(&telemetry_config(1)) {
        Ok(made) => made,
        Err(e) => panic!("{}", e.message()),
    };
    let first = delivery.enqueue(&sample_event(DecisionOutcome::Allow));
    assert_eq!(first, Some(QueueOutcome::Queued));
    assert_eq!(delivery.snapshot().dropped_total, 0);

    delivery.enqueue(&sample_event(DecisionOutcome::Allow));

    assert_eq!(delivery.snapshot().dropped_total, 1);
}

#[test]
fn queued_events_reach_the_reader() {
    let (mut delivery, receiver) = match TelemetryDelivery::new(&telemetry_config(2)) {
        Ok(made) => made,
        Err(e) => panic!("{}", e.message()),
    };
    let mut receiver = match receiver {
        Some(r) => r,
        None => panic!("deliveries are made"),
    };
    delivery.enqueue(&sample_event(DecisionOutcome::Allow));
    match receiver.try_recv() {
        Ok(payload) => {
            assert_eq!(payload.firewall_instance_id, "fw");
            assert_eq!(payload.action_taken, "allowed");
            assert_eq!(payload.raw_metadata.outcome, "allow");
            assert_eq!(payload.raw_metadata.rule_ids, vec!["sqli.basic".to_string()]);
        }
        Err(_) => panic!("an event waits"),
    }
    drop(receiver);
    let late = delivery.enqueue(&sample_event(DecisionOutcome::Allow));
    assert_eq!(late, Some(QueueOutcome::Closed));
    assert_eq!(delivery.snapshot().dropped_total, 1);
}

#[test]
fn deliveries_are_checked_before_they_start() {
    let mut config = telemetry_config(0);
    assert!(matches!(
        TelemetryDelivery::new(&config),
        Err(ConfigError::QueueCapacityOutOfRange)
    ));
    config.telemetry_enabled = false;
    config.queue_capacity = 1;
    assert!(matches!(TelemetryDelivery::new(&config), Ok((_, None))));
}

#[test]
fn deliveries_are_retried_with_growing_pauses() {
    assert_eq!(classify_status(204), DeliveryOutcome::Sent);
    assert_eq!(classify_status(503), DeliveryOutcome::Retryable(503));
    assert_eq!(classify_status(422), DeliveryOutcome::Permanent(422));
    assert_eq!(next_step(0, Attempt::Answered(200)), DeliveryStep::Done);
    assert_eq!(
        next_step(0, Attempt::Answered(401)),
        DeliveryStep::GiveUp(DeliveryFailure::Rejected(401))
    );
    let mut pauses = Vec::new();
    let mut retries = 0;
    let failure = loop {
        match next_step(retries, Attempt::Answered(500)) {
            DeliveryStep::Retry { attempt, delay_ms } => {
                pauses.push(delay_ms);
                retries = attempt;
            }
            DeliveryStep::GiveUp(failure) => break failure,
            DeliveryStep::Done => panic!("not delivered"),
        }
    };
    assert_eq!(pauses, vec![backoff_ms(1), backoff_ms(2), backoff_ms(3)]);
    assert!(pauses[0] < pauses[1] && pauses[1] < pauses[2]);
    assert_eq!(failure, DeliveryFailure::Exhausted(500));
    assert_eq!(
        next_step(3, Attempt::Unanswered),
        DeliveryStep::GiveUp(DeliveryFailure::Unreachable)
    );
    assert_eq!(pauses, vec![137, 224, 411]);
    assert_eq!(backoff_ms(40), 2_030);
}

#[test]
fn steps_are_counted() {
    let mut delivery = TelemetryDelivery::disabled();
    delivery.note_step(&DeliveryStep::Done);
    delivery.note_step(&DeliveryStep::Retry { attempt: 1, delay_ms: 100 });
    delivery.note_step(&DeliveryStep::GiveUp(DeliveryFailure::Unreachable));
    let counted = delivery.snapshot();
    assert_eq!(counted.sent_total, 1);
    assert_eq!(counted.retried_total, 1);
    assert_eq!(counted.failed_total, 1);
}

#[test]
fn a_window_admits_its_limit() {
    let mut limiter = RateLimiter::new();
    for _ in 0..3 {
        assert!(limiter.check("k", 3, 10, 0));
    }
    assert!(!limiter.check("k", 3, 10, 10 * SEC - 1));
    assert!(limiter.check("other", 3, 10, 0));
    assert!(limiter.check("k", 3, 10, 10 * SEC));
}

#[test]
fn old_hits_are_forgotten() {
    let mut hits = vec![0, 5 * SEC, 9 * SEC];
    purge_old_hits(&mut hits, 12 * SEC, 5);
    assert_eq!(hits, vec![9 * SEC]);
}

fn get(path: &str) -> RequestContext {
    RequestContext {
        request_id: "r".to_string(),
        timestamp: 0,
        source_ip: "203.0.113.10".to_string(),
        method: "GET".to_string(),
        path: path.to_string(),
        query: None,
        body_preview: None,
        parsed_body_fields: Vec::new(),
        auth_status: AuthStatus::NotRequired,
    }
}

#[test]
fn requests_over_the_limit_are_found() {
    let mut config = base_config();
    config.security.rate_limit = RateLimitConfig { requests_per_window: 1, window_secs: 60 };
    let policy = LivePolicyState::from_config(&config, 0);
    let mut limiter = RateLimiter::new();
    let first = evaluate_request(&mut limiter, &config, &policy, &get("/a"), 0);
    assert!(first.findings.is_empty());
    assert!(first.sample.is_none());
    let second = evaluate_request(&mut limiter, &config, &policy, &get("/a"), 1);
    assert_eq!(second.findings.len(), 1);
    assert_eq!(second.findings[0].attack_class, AttackClass::RateLimitExceeded);
    assert_eq!(limiter.clear_source_state("203.0.113.10"), 1);
    let third = evaluate_request(&mut limiter, &config, &policy, &get("/a"), 2);
    assert!(third.findings.is_empty());
}

fn calm() -> BehaviorReading {
    BehaviorReading {
        rps_spike: false,
        body_spike: false,
        rps_jump: false,
        body_jump: false,
        rps_z: "0.00".to_string(),
        body_z: "0.00".to_string(),
        body_mean: "0.00".to_string(),
        body_stddev: "0.0000".to_string(),
        rps_mean_bits: 1,
        rps_m2_bits: 2,
        body_mean_bits: 3,
        body_m2_bits: 4,
    }
}

#[test]
fn behavior_is_learned_before_it_is_judged() {
    let mut config = base_config();
    config.behavior.enabled = true;
    config.behavior.warmup_min_samples = 2;
    let policy = LivePolicyState::from_config(&config, 0);
    let mut limiter = RateLimiter::new();
    let none = Headers::new();
    for n in 0..2 {
        let e = evaluate_request_with_headers(&mut limiter, &config, &policy, &get("/a"), &none, n);
        assert!(matches!(&e.sample, Some(s) if !s.rps_warm && !s.body_warm));
        let found =
            complete_evaluation(&mut limiter, &config, &policy, &get("/a"), e, Some(calm()), n);
        assert!(found.is_empty());
    }
    let e = evaluate_request_with_headers(&mut limiter, &config, &policy, &get("/a"), &none, 3);
    assert!(matches!(&e.sample, Some(s)
        if s.rps_warm && s.current_rps == 3 && s.rps.samples == 2 && s.rps.mean_bits == 1));
    let mut jump = calm();
    jump.rps_jump = true;
    let found = complete_evaluation(&mut limiter, &config, &policy, &get("/a"), e, Some(jump), 3);
    assert_eq!(found.len(), 1);
    assert_eq!(found[0].rule_id, "behavior.anomaly");
    assert_eq!(found[0].confidence, 840_000);
    assert!(found[0].message.contains("zero_var_rps=true"));

    let shown = limiter.snapshot_behavior(10);
    assert_eq!(shown.len(), 1);
    assert_eq!(shown[0].rps.samples, 3);
    assert_eq!(limiter.behavior_entry_count(), 1);
    assert_eq!(limiter.clear_behavior_state(), 1);
    assert_eq!(limiter.behavior_entry_count(), 0);
}

#[test]
fn walking_through_object_ids_is_found() {
    let mut config = base_config();
    config.behavior.enabled = true;
    config.behavior.object_enumeration_threshold = 3;
    let policy = LivePolicyState::from_config(&config, 0);
    let mut limiter = RateLimiter::new();
    let mut last = Vec::new();
    for n in 0..3u64 {
        let context = get(&format!("/orders/{}", 100 + n));
        let e = evaluate_request(&mut limiter, &config, &policy, &context, n);
        last =
            complete_evaluation(&mut limiter, &config, &policy, &context, e, Some(calm()), n);
    }
    assert!(last.iter().any(|f| f.attack_class == AttackClass::ObjectEnumeration));
}

#[test]
fn blocks_last_until_they_expire() {
    let mut store = TemporaryMitigationStore::new();
    let made = store.block_ip_for("10.0.0.1", 60, "why".to_string(), "id-1".to_string(), 0);
    assert_eq!(made.expires_at, 60 * SECOND);
    assert!(store.get_active_block("10.0.0.1", 60 * SECOND - 1).is_some());
    assert!(store.get_active_block("10.0.0.1", 61 * SECOND).is_none());
    assert_eq!(store.active_block_count(), 0);

    store.block_ip_for("10.0.0.2", 1, "why".to_string(), "id-2".to_string(), 0);
    assert_eq!(store.list_active_blocks(0).len(), 1);
    assert_eq!(store.cleanup_expired(2 * SECOND), vec!["10.0.0.2".to_string()]);
    assert!(!store.unblock_ip("10.0.0.2"));
    store.block_ip_for("10.0.0.2", 1, "why".to_string(), "id-3".to_string(), 0);
    assert!(store.unblock_ip("10.0.0.2"));
}

#[test]
fn a_rejected_source_is_blocked_and_remembered() {
    let mut store = TemporaryMitigationStore::new();
    let mut decision = sample_event(DecisionOutcome::Reject {
        status_code: 403,
        message: "no".to_string(),
    })
    .decision;
    decision.findings = sample_event(DecisionOutcome::Allow).findings;
    decision.actions = vec![
        MitigationAction::BlockRequest,
        MitigationAction::BlockSourceIpTemporary { ttl_secs: 30 },
    ];
    assert_eq!(block_count(&decision.actions), 1);
    assert!(blocks_fit(&decision.actions, 0));
    assert!(!blocks_fit(&decision.actions, LATEST));
    let ids = vec!["action-1".to_string()];
    let outcome = finalize_blocking_decision(&mut store, "10.0.0.1", &decision, &ids, 0);
    assert_eq!(outcome.status_code, 403);
    assert_eq!(outcome.body, "no");
    assert_eq!(outcome.blocks.len(), 1);
    assert_eq!(outcome.blocks[0].action_id, "action-1");
    assert!(matches!(outcome.reputation, Some(r) if r.suspicious_score > 0));
    assert!(store.get_active_block("10.0.0.1", 1).is_some());
    assert!(store.get_reputation("10.0.0.1", 0).suspicious_score > 0);
    assert_eq!(store.list_reputations().len(), 1);

    let mut limiter = RateLimiter::new();
    assert_eq!(clear_source_state(&mut store, &mut limiter, "10.0.0.1"), (true, true));
    assert_eq!(clear_source_state(&mut store, &mut limiter, "10.0.0.1"), (false, false));
    assert_eq!(store.get_reputation("10.0.0.1", 5).suspicious_score, 0);
}

#[test]
fn saved_state_comes_back_unless_it_has_expired() {
    let saved = |ip: &str, expires_at: i128| ActiveMitigation {
        action_id: "a".to_string(),
        source_ip: ip.to_string(),
        action: MitigationAction::BlockSourceIpTemporary { ttl_secs: 1 },
        created_at: 0,
        expires_at,
        reason: "why".to_string(),
    };
    let remembered = |ip: &str| SourceReputation {
        source_ip: ip.to_string(),
        suspicious_score: 4,
        last_seen_at: 0,
    };
    let mut store = TemporaryMitigationStore::new();
    hydrate_state(
        &mut store,
        &vec![saved("10.0.0.1", 5), saved("10.0.0.2", 50)],
        &vec![remembered("10.0.0.3"), remembered("nonsense")],
        10,
    );
    assert_eq!(store.active_block_count(), 1);
    assert!(store.get_active_block("10.0.0.2", 10).is_some());
    assert_eq!(store.get_reputation("10.0.0.3", 10).suspicious_score, 4);
    assert_eq!(store.list_reputations().len(), 1);
}

#[test]
fn recommendations_become_commands() {
    let offered = demo_recommendations();
    assert_eq!(offered.len(), 2);
    assert!(matches!(recommendation_to_command(&offered[0]), Some(c)
        if c.kind == OperatorActionKind::BlockIpTemporary && c.reversible
            && c.parameters.contains(&("ttl_secs".to_string(), "900".to_string()))));
    let mut other = offered[1].clone();
    other.action_key = "something_else".to_string();
    assert!(recommendation_to_command(&other).is_none());

    let commands = demo_one_click_commands();
    assert_eq!(commands.len(), 4);
    assert_eq!(commands[1].kind, OperatorActionKind::UnblockIp);
    assert_eq!(
        commands[3].parameters,
        vec![("source_ip".to_string(), "127.0.0.1".to_string())]
    );
}

#[test]
fn addresses_are_written_in_one_way() {
    for (given, wanted) in [
        ("10.0.0.1", "10.0.0.1"),
        ("::1", "::1"),
        ("0:0:0:0:0:0:0:0", "::"),
        ("2001:0DB8:0:0:1:0:0:1", "2001:db8::1:0:0:1"),
        ("1:0:2:3:4:5:6:7", "1:0:2:3:4:5:6:7"),
        ("::ffff:10.0.0.1", "::ffff:10.0.0.1"),
        ("0:0:0:0:0:ffff:a00:1", "::ffff:10.0.0.1"),
        ("fe80::", "fe80::"),
    ] {
        assert_eq!(canonical_ip(given).as_deref(), Some(wanted), "{}", given);
    }
    for given in ["", "10.0.0", "010.0.0.1", "256.1.1.1", "[::1]", "1:2:3", ":::"] {
        assert_eq!(canonical_ip(given), None, "{}", given);
    }
}
