use api_firewall::config::{DiscoveryConfig, RuleMode};
use api_firewall::detection::normalization::{
    is_sensitive_key, normalize_request, redact_sensitive_text, NormalizationLimits,
};
use api_firewall::detection::schema_learning::{
    dominant_type, learn_and_detect_json_schema, snapshot_schema_memory, LearnedField,
    SchemaMemory,
};
use api_firewall::detection::tokens::missing_scopes;
use api_firewall::enrollment::EnrollmentError;
use api_firewall::headers::Headers;
use api_firewall::inventory::{
    learned_routes_snapshot, remember_route, restore_learned_routes, RouteMemory,
};
use api_firewall::journal::recent_lines;
use api_firewall::mitigation::hashmap;
use api_firewall::net::{canonical_ip, parse_ip};
use api_firewall::policy::{action_key, calculate_risk};
use api_firewall::proxy::{build_upstream_url, forwarded_headers, should_skip_response_header};
use api_firewall::routes::{canonical_security_path, id_segment, normalize_runtime_path};
use api_firewall::storage::{
    mitigation_at, read_mitigation, read_reputation, sql_integer, sql_unsigned,
};
use api_firewall::table::Table;
use api_firewall::telemetry_delivery::{
    map_security_event, rank_to_severity, severity_rank, status_text, DeliveryFailure,
};
use api_firewall::text::{
    bounded, decimal, eq_ignore_ascii_case, join, parse_uint, split, split_once, trim, words,
};
use api_firewall::types::{
    AttackClass, AuthStatus, DecisionOutcome, Finding, FindingEvidence, MitigationAction,
    ParsedBodyField, RequestContext, SecurityDecision, SecurityEvent, Severity,
};

fn list(items: &[&str]) -> Vec<String> {
    items.iter().map(|item| item.to_string()).collect()
}

fn finding(class: AttackClass, severity: Severity, confidence: i64) -> Finding {
    Finding {
        rule_id: format!("{:?}", class),
        attack_class: class,
        severity,
        confidence,
        message: "m".to_string(),
        evidence: vec![FindingEvidence {
            location: "l".to_string(),
            value_preview: "v".to_string(),
        }],
        mode: RuleMode::Block,
    }
}

#[test]
fn splitting_undoes_joining() {
    let parts = list(&["a", "", "b"]);
    assert_eq!(join(&parts, "/"), "a//b");
    assert_eq!(split("a//b", '/'), parts);
    assert_eq!(split("", '/'), list(&[""]));
    assert_eq!(split_once("k=v=w", '='), ("k".to_string(), Some("v=w".to_string())));
    assert_eq!(split_once("k", '='), ("k".to_string(), None));
}

#[test]
fn numbers_are_written_and_read() {
    assert_eq!(decimal(0), "0");
    assert_eq!(decimal(18_446_744_073_709_551_615), "18446744073709551615");
    assert_eq!(parse_uint("18446744073709551615", u64::MAX), Some(u64::MAX));
    assert_eq!(parse_uint("18446744073709551616", u64::MAX), None);
    assert_eq!(parse_uint("+7", u64::MAX), Some(7));
    assert_eq!(parse_uint("007", u64::MAX), Some(7));
    for text in ["", "+", "-1", " 1", "1x"] {
        assert_eq!(parse_uint(text, u64::MAX), None, "{}", text);
    }
    assert_eq!(parse_uint("256", 255), None);
}

#[test]
fn texts_are_cut_and_trimmed() {
    assert_eq!(bounded("a\u{e9}b", 2), "a");
    assert_eq!(bounded("a\u{e9}b", 3), "a\u{e9}");
    assert_eq!(trim(" \t\u{a0}x y\u{2003}\n"), "x y");
    assert_eq!(words(" a\u{85}b  c "), list(&["a", "b", "c"]));
    assert!(eq_ignore_ascii_case("TraCE", "trace"));
    assert!(!eq_ignore_ascii_case("\u{c9}", "\u{e9}"));
}

#[test]
fn tables_hold_each_key_once_in_order() {
    let mut table: Table<u64> = Table::new();
    table.insert("b".to_string(), 1);
    table.insert("a".to_string(), 2);
    table.insert("b".to_string(), 3);
    assert_eq!(table.len(), 2);
    assert_eq!((table.key(0), *table.value(0)), ("a", 2));
    assert_eq!((table.key(1), *table.value(1)), ("b", 3));
    assert_eq!(table.get("c"), None);
    table.remove_at(0);
    assert!(!table.contains_key("a"));
}

#[test]
fn the_last_value_of_a_parameter_counts() {
    let pair = |a: &str, b: &str| (a.to_string(), b.to_string());
    let collected = hashmap(vec![pair("a", "1"), pair("b", "2"), pair("a", "3")]);
    assert_eq!(collected.len(), 2);
    assert!(collected.contains(&pair("a", "3")) && collected.contains(&pair("b", "2")));
}

#[test]
fn scores_stay_between_zero_and_a_hundred() {
    assert_eq!(finding(AttackClass::Xss, Severity::Critical, 2_000_000).score(), 90_000_000);
    assert_eq!(finding(AttackClass::Xss, Severity::Critical, -1).score(), 0);
    assert_eq!(finding(AttackClass::Xss, Severity::Medium, 500_000).score(), 22_500_000);
    assert_eq!(finding(AttackClass::Xss, Severity::High, 890_000).score(), 62_300_000);
    assert_eq!(finding(AttackClass::Xss, Severity::Low, 1_000_000).score(), 20_000_000);
}

#[test]
fn more_findings_mean_no_less_risk() {
    let mut findings = vec![finding(AttackClass::SchemaViolation, Severity::High, 1)];
    assert_eq!(calculate_risk(&findings, -5), 7_000_000);
    assert_eq!(calculate_risk(&findings, 2), 10_000_000);
    findings.push(finding(AttackClass::ObjectEnumeration, Severity::Medium, 1));
    assert_eq!(calculate_risk(&findings, 2), 15_000_000);
    findings.push(finding(AttackClass::Xss, Severity::Critical, 1));
    assert_eq!(calculate_risk(&findings, 2), 15_000_000);
}

#[test]
fn actions_are_told_apart_by_their_key() {
    assert_eq!(action_key(&MitigationAction::BlockRequest), "BlockRequest");
    assert_eq!(
        action_key(&MitigationAction::ThrottleSource { ttl_secs: 60 }),
        "ThrottleSource:60"
    );
    assert!(
        action_key(&MitigationAction::ThrottleSource { ttl_secs: 6 })
            != action_key(&MitigationAction::MarkSourceSuspicious { ttl_secs: 6 })
    );
}

#[test]
fn paths_have_one_normal_form() {
    let once = normalize_runtime_path("//Users/42/0a1b2c3d/reports/");
    assert_eq!(once, "/users/{id}/{id}/reports");
    assert_eq!(normalize_runtime_path(&once), once);
    assert_eq!(normalize_runtime_path(""), "/");
    assert_eq!(canonical_security_path("/proxy"), "/");
    assert_eq!(canonical_security_path("/proxy/a"), "/a");
    assert_eq!(canonical_security_path("/proxya"), "/proxya");
    assert!(id_segment("123e4567-e89b-12d3-a456-426614174000"));
    assert!(id_segment("abcdefghijklmno_"));
    assert!(!id_segment("abcdefg"));
    assert!(!id_segment("12\n"));
}

#[test]
fn one_slash_joins_base_and_path() {
    assert_eq!(build_upstream_url("http://a//", "//b/c", None), "http://a/b/c");
    assert_eq!(build_upstream_url("http://a", "b", Some("")), "http://a/b");
    assert_eq!(build_upstream_url("http://a", "b", Some("q=1")), "http://a/b?q=1");
}

#[test]
fn some_headers_stay_behind() {
    let mut h = Headers::new();
    h.append("Host", Some("a".to_string()));
    h.append("accept", Some("*/*".to_string()));
    h.append("x-raw", None);
    assert_eq!(forwarded_headers(&h).len(), 1);
    assert_eq!(forwarded_headers(&h)[0].1, "*/*");
    assert!(should_skip_response_header("Transfer-Encoding"));
    assert!(!should_skip_response_header("content-length"));
}

#[test]
fn integers_survive_the_database() {
    for n in [0, 7, u64::MAX, 1 << 63] {
        assert_eq!(sql_unsigned(sql_integer(n)), n);
    }
    assert_eq!(sql_integer(u64::MAX), -1);
}

#[test]
fn a_payload_takes_the_gravest_finding() {
    for (severity, rank, name) in [
        (Severity::Low, 1, "low"),
        (Severity::Medium, 2, "medium"),
        (Severity::High, 3, "high"),
        (Severity::Critical, 4, "critical"),
    ] {
        assert_eq!(severity_rank(&severity), rank);
        assert_eq!(rank_to_severity(rank), name);
    }
    let event = SecurityEvent {
        request_id: "r".to_string(),
        timestamp: 0,
        source_ip: "10.0.0.1".to_string(),
        method: "GET".to_string(),
        path: "/".to_string(),
        findings: vec![
            finding(AttackClass::Xss, Severity::High, 990_000),
            finding(AttackClass::JwtAbuse, Severity::Critical, 500_000),
        ],
        decision: SecurityDecision {
            outcome: DecisionOutcome::Allow,
            actions: vec![MitigationAction::ThrottleSource { ttl_secs: 1 }],
            recommendations: Vec::new(),
            findings: Vec::new(),
            summary: "s".to_string(),
            risk_score: 3,
        },
        normalized_route: Some("/".to_string()),
    };
    let payload = map_security_event(&event, "fw");
    assert_eq!(payload.severity, "critical");
    assert_eq!(payload.attack_type, "credential_attack");
    assert_eq!(payload.confidence, Some(990_000));
    assert_eq!(payload.detector_id.as_deref(), Some("Xss"));
    assert_eq!(payload.score, Some(69_300_000));
    assert_eq!(payload.action_taken, "rate_limited");
    assert_eq!(payload.raw_metadata.finding_count, 2);
    assert_eq!(payload.raw_metadata.risk_score, 3);
}

#[test]
fn the_most_frequent_type_is_the_expected_one() {
    let mut types = Table::new();
    types.insert("number".to_string(), 2);
    types.insert("string".to_string(), 3);
    let field = LearnedField { seen: 5, types, sensitive: false };
    assert_eq!(dominant_type(&field).as_deref(), Some("string"));
    let nothing = LearnedField { seen: 0, types: Table::new(), sensitive: false };
    assert_eq!(dominant_type(&nothing), None);
}

#[test]
fn learned_schemas_are_bounded() {
    let mut memory = SchemaMemory::new();
    let config = DiscoveryConfig {
        enabled: true,
        schema_min_samples: 1,
        max_schema_routes: 2,
        max_schema_fields: 2,
        max_json_depth: 2,
        max_json_array_len: 1,
        ..Default::default()
    };
    let mut learn = |route: &str, body: &str| {
        learn_and_detect_json_schema(
            &mut memory,
            route,
            Some(body),
            Some("application/json"),
            &config,
            RuleMode::DetectOnly,
        )
    };
    assert!(learn("POST:/a", "{\"x\":1,\"y\":2,\"z\":3}").is_empty());
    let changed = learn("POST:/a", "{\"x\":\"one\"}");
    let rules: Vec<&str> = changed.iter().map(|f| f.rule_id.as_str()).collect();
    assert_eq!(rules, vec!["UZ-API-SCHEMA-003", "UZ-API-SCHEMA-002"]);
    let deep = learn("POST:/b", "{\"a\":{\"b\":[1,2]}}");
    let rules: Vec<&str> = deep.iter().map(|f| f.rule_id.as_str()).collect();
    assert_eq!(rules, vec!["UZ-API-SCHEMA-005", "UZ-API-SCHEMA-006"]);
    learn("POST:/c", "{}");
    let kept = snapshot_schema_memory(&memory, 10);
    assert_eq!(kept.len(), 2);
    assert_eq!(kept[0].route_key, "POST:/a");
    assert_eq!(kept[0].fields.len(), 2);
    assert_eq!(kept[1].route_key, "POST:/c");
}

#[test]
fn sensitive_body_fields_are_not_shown() {
    let context = RequestContext {
        request_id: "r".to_string(),
        timestamp: 0,
        source_ip: "127.0.0.1".to_string(),
        method: "POST".to_string(),
        path: "/login".to_string(),
        query: None,
        body_preview: None,
        parsed_body_fields: vec![
            ParsedBodyField { key: "Password".to_string(), value_preview: "hunter2".to_string() },
            ParsedBodyField { key: "name".to_string(), value_preview: "ann".to_string() },
        ],
        auth_status: AuthStatus::NotRequired,
    };
    let normalized = normalize_request(
        &context,
        &Headers::new(),
        NormalizationLimits { max_bytes: 128, max_decode_passes: 2, max_query_params: 10 },
    );
    let shown = format!("{:?}", normalized.inspection_values);
    assert!(!shown.contains("hunter2"));
    assert!(shown.contains("ann"));
}

#[test]
fn scopes_that_were_not_granted_are_missing() {
    let missing = missing_scopes(&list(&["a", "b", "a"]), &list(&["b", "c"]));
    assert_eq!(missing, list(&["a"]));
}

#[test]
fn addresses_are_read_strictly() {
    assert!(parse_ip("1.2.3.4").is_some());
    assert!(parse_ip("::1").is_some());
    assert!(parse_ip("1.2.3.4 ").is_none());
    assert!(parse_ip("1::2::3").is_none());
}

#[test]
fn a_normal_path_keeps_its_segments() {
    assert_eq!(normalize_runtime_path("/API//Users/42/Photos/"), "/api/users/{id}/photos");
    assert_eq!(
        normalize_runtime_path("/api//USERS/42/photos/"),
        normalize_runtime_path("/API//Users/42/Photos/")
    );
    assert_eq!(normalize_runtime_path("///"), "/");
}

#[test]
fn names_around_sensitive_names_are_sensitive() {
    assert!(is_sensitive_key("token"));
    assert!(is_sensitive_key("my_token_2"));
    assert!(is_sensitive_key("X-ToKeN"));
    assert!(is_sensitive_key("t.o-k e[n]"));
    assert!(!is_sensitive_key("t_o_k_e_n"));
    assert!(!is_sensitive_key("page"));
}

#[test]
fn redacted_values_leave_no_trace() {
    let once = redact_sensitive_text("&&page=2&Pass-Word=abc=d&&q");
    assert_eq!(once, "page=2&Pass-Word=[redacted]&&q");
    assert_eq!(redact_sensitive_text(&once), once);
    assert_eq!(redact_sensitive_text("&&page=2&Pass-Word=&&q"), once);
    assert_eq!(redact_sensitive_text("token=x"), redact_sensitive_text("token=yyy=z"));
    assert_eq!(redact_sensitive_text("&&"), "");
}

#[test]
fn restored_routes_gather_what_is_known() {
    let mut kept = RouteMemory::new();
    remember_route(&mut kept, "GET", "/a", false, 5, 10);
    remember_route(&mut kept, "GET", "/a", true, 9, 10);
    remember_route(&mut kept, "GET", "/b", false, 6, 10);
    let mut records = learned_routes_snapshot(&kept);
    let mut older = RouteMemory::new();
    remember_route(&mut older, "GET", "/a", false, 1, 10);
    records.append(&mut learned_routes_snapshot(&older));

    let mut memory = RouteMemory::new();
    remember_route(&mut memory, "GET", "/a", false, 7, 10);
    remember_route(&mut memory, "GET", "/c", false, 8, 10);
    restore_learned_routes(&mut memory, &records);
    assert_eq!(memory.len(), 3);
    let routes = learned_routes_snapshot(&memory);
    let a = routes.iter().find(|r| r.normalized_path == "/a");
    assert!(matches!(
        a,
        Some(r) if r.first_seen == 1 && r.last_seen == 9 && r.hits == 2 && r.has_auth
    ));
    let c = routes.iter().find(|r| r.normalized_path == "/c");
    assert!(matches!(
        c,
        Some(r) if r.first_seen == 8 && r.last_seen == 8 && r.hits == 1 && !r.has_auth
    ));

    restore_learned_routes(&mut memory, &records);
    assert_eq!(format!("{:?}", learned_routes_snapshot(&memory)), format!("{:?}", routes));
}

#[test]
fn scalars_of_a_body_are_not_learned() {
    let config = DiscoveryConfig {
        enabled: true,
        schema_min_samples: 1,
        max_schema_routes: 2,
        max_schema_fields: 8,
        max_json_depth: 2,
        max_json_array_len: 1,
        ..Default::default()
    };
    let learn = |body: &str| {
        let mut memory = SchemaMemory::new();
        let mut found = Vec::new();
        for body in ["{\"id\":1}", body] {
            found.append(&mut learn_and_detect_json_schema(
                &mut memory,
                "GET:/a",
                Some(body),
                Some("application/json"),
                &config,
                RuleMode::DetectOnly,
            ));
        }
        format!("{:?} {:?}", found, snapshot_schema_memory(&memory, 9))
    };
    let one = learn("{\"id\":\"abc\",\"tags\":[10,null],\"o\":{\"k\":true}}");
    let other = learn("{\"id\":\"xyz\",\"tags\":[99,null],\"o\":{\"k\":true}}");
    assert_eq!(one, other);
    let other = learn("{\"id\":\"xyz\",\"tags\":[99,true],\"o\":{\"k\":null}}");
    assert_ne!(one, other);
}

#[test]
fn rows_of_mitigations_are_read() {
    let read = |ip: &str, created: &str, expires: &str| {
        read_mitigation(
            ip,
            "m-1".to_string(),
            "throttle_source",
            60,
            created,
            expires,
            "why".to_string(),
        )
    };
    let Some(found) = read("::FFFF:1", "1970-01-01T00:00:01.5+00:00", "1970-01-01T02:00:00+01:00")
    else {
        panic!("the row can be read");
    };
    assert_eq!(found.action_id, "m-1");
    assert_eq!(found.source_ip, "::ffff:1");
    assert_eq!(found.action, MitigationAction::ThrottleSource { ttl_secs: 60 });
    assert_eq!(found.created_at, 1_500_000_000);
    assert_eq!(found.expires_at, 3_600_000_000_000);
    assert_eq!(found.reason, "why");
    assert!(read("nowhere", "1970-01-01T00:00:01Z", "1970-01-01T00:00:01Z").is_none());
    assert!(read("1.2.3.4", "soon", "1970-01-01T00:00:01Z").is_none());
    assert!(read("1.2.3.4", "1970-01-01T00:00:01Z", "later").is_none());

    let at = |created, expires| {
        mitigation_at("1.2.3.4", String::new(), "other", -1, created, expires, String::new())
    };
    assert!(matches!(
        at(Some(1), Some(2)),
        Some(m) if m.created_at == 1 && m.expires_at == 2 && m.action
            == MitigationAction::BlockSourceIpTemporary { ttl_secs: u64::MAX }
    ));
    assert!(at(None, Some(2)).is_none());
    assert!(at(Some(1), None).is_none());
}

#[test]
fn rows_of_reputations_are_read() {
    let Some(found) = read_reputation("1.2.3.4".to_string(), -3, "1969-12-31T23:59:59Z") else {
        panic!("the row can be read");
    };
    assert_eq!(found.source_ip, "1.2.3.4");
    assert_eq!(found.suspicious_score, -3);
    assert_eq!(found.last_seen_at, -1_000_000_000);
    assert!(read_reputation("1.2.3.4".to_string(), 0, "").is_none());
}

#[test]
fn the_newest_lines_come_first() {
    assert_eq!(recent_lines("a\nb\r\nc\n", 2), list(&["c", "b"]));
    assert_eq!(recent_lines("a\n\nb\r", 9), list(&["b\r", "", "a"]));
    assert_eq!(recent_lines("a\nb\n", 0), list(&[]));
    assert_eq!(recent_lines("", 3), list(&[]));
    let content = format!("{}{}\n", "a\nb\n", "c");
    assert_eq!(recent_lines(&content, 1), list(&["c"]));
}

#[test]
fn failures_name_the_status_with_its_reason() {
    assert_eq!(status_text(503), "503 Service Unavailable");
    assert_eq!(status_text(599), "599 <unknown status code>");
    assert_eq!(status_text(7), "7");
    assert_eq!(
        DeliveryFailure::Rejected(404).describe(),
        "control-plane rejected telemetry with non-retryable status 404 Not Found"
    );
    assert_eq!(
        DeliveryFailure::Exhausted(503).describe(),
        "control-plane telemetry exhausted retries after status 503 Service Unavailable"
    );
    assert_eq!(
        DeliveryFailure::Unreachable.describe(),
        "control-plane telemetry exhausted retries after network error"
    );
    assert_eq!(
        EnrollmentError::Refused(401).describe(),
        "control-plane enrollment failed with status 401 Unauthorized"
    );
    assert_eq!(
        EnrollmentError::MissingData.describe(),
        "control-plane enrollment response missing data"
    );
}

#[test]
fn canonical_addresses_are_read_back() {
    for (written, canonical) in [
        ("10.0.0.255", "10.0.0.255"),
        ("2001:DB8:0:0:1:0:0:1", "2001:db8::1:0:0:1"),
        ("0:0:0:0:0:0:0:0", "::"),
        ("1:0:2:0:3:0:4:0", "1:0:2:0:3:0:4:0"),
        ("::FFFF:7f00:1", "::ffff:127.0.0.1"),
    ] {
        assert_eq!(canonical_ip(written).as_deref(), Some(canonical));
        assert_eq!(canonical_ip(canonical).as_deref(), Some(canonical));
    }
}
