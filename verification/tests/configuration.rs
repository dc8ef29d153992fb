use api_firewall::config::{
    is_known_placeholder_secret, parse_bool_env, public_bind_addr_from_port_env,
    validate_detector_exception_parameter, AdminAuthConfig, AppConfig, AuthConfig, BehaviorConfig,
    ConfigError, ControlPlaneConfig, DetectorException, DiscoveryConfig, EnvOverrides, JwtConfig,
    PolicyMode, ProxyConfig, RateLimitConfig, ResponseSecurityConfig, RuleMode, SecurityConfig,
    ServerConfig, SpecConfig, StorageConfig, TelemetryConfig,
};
use api_firewall::enrollment::{
    accept_enrollment, check_enrollment_status, enrollment_request, optional_trimmed,
    EnrolledFirewall, EnrollmentData, EnrollmentError, EnrollmentResponse,
};
use api_firewall::table::Table;
use api_firewall::types::{resolve_rate_limit_for_path, resolve_rule_mode, LivePolicyState};

fn rule_modes(pairs: &[(&str, RuleMode)]) -> Table<RuleMode> {
    let mut out = Table::new();
    for (rule, mode) in pairs {
        out.insert(rule.to_string(), *mode);
    }
    out
}

fn base_config() -> AppConfig {
    AppConfig {
        server: ServerConfig {
            public_bind_addr: "127.0.0.1:8080".to_string(),
            admin_bind_addr: "127.0.0.1:9090".to_string(),
            trust_x_forwarded_for: false,
            environment: "development".to_string(),
            admin_public_health_enabled: false,
        },
        proxy: ProxyConfig {
            upstream_base_url: "http://127.0.0.1:3000".to_string(),
            connect_timeout_secs: 3,
            request_timeout_secs: 15,
            pool_idle_timeout_secs: 30,
            max_body_bytes: 1_048_576,
        },
        security: SecurityConfig {
            blocked_methods: vec!["TRACE".to_string()],
            request_id_header: "x-request-id".to_string(),
            inspect_headers: true,
            inspect_query_string: true,
            inspect_body: true,
            max_inspection_body_bytes: 65_536,
            temp_ban_secs: 300,
            temp_suspicious_secs: 600,
            suspicious_score_threshold: 10,
            rate_limit: RateLimitConfig { requests_per_window: 100, window_secs: 60 },
            rule_modes: Table::new(),
            policy_mode: PolicyMode::Balanced,
            min_block_confidence: 800_000,
            min_block_score: 50_000_000,
            detector_exceptions: Vec::new(),
            route_overrides: Vec::new(),
            route_rate_limits: Vec::new(),
            route_behavior_overrides: Vec::new(),
        },
        telemetry: TelemetryConfig {
            log_level: "info".to_string(),
            security_event_log_path: "logs/events.jsonl".to_string(),
        },
        control_plane: ControlPlaneConfig::default(),
        auth: AuthConfig {
            enabled: false,
            header_name: "x-api-key".to_string(),
            api_keys: vec!["key-one".to_string()],
            protected_path_prefixes: vec!["/api".to_string()],
            admin: AdminAuthConfig {
                enabled: true,
                header_name: "x-admin-token".to_string(),
                token: "a-long-random-value".to_string(),
            },
        },
        storage: StorageConfig { sqlite_path: "data/firewall.db".to_string() },
        spec: SpecConfig::default(),
        jwt: JwtConfig::default(),
        behavior: BehaviorConfig::default(),
        response_security: ResponseSecurityConfig::default(),
        discovery: DiscoveryConfig::default(),
    }
}

fn no_overrides() -> EnvOverrides {
    EnvOverrides {
        public_bind_addr: None,
        port: None,
        admin_bind_addr: None,
        admin_token: None,
        api_keys: None,
        upstream_base_url: None,
        log_level: None,
        telemetry_enabled: None,
        enrollment_enabled: None,
        enrollment_url: None,
        enrollment_token: None,
        installation_identifier: None,
        hostname: None,
        version: None,
        region: None,
        ingestion_url: None,
        api_key: None,
        firewall_instance_id: None,
    }
}

#[test]
fn derives_public_bind_addr_from_platform_port() {
    assert_eq!(public_bind_addr_from_port_env(" 12345 "), "0.0.0.0:12345");
}

#[test]
fn optional_trimmed_rejects_blank_values() {
    assert_eq!(optional_trimmed("  ").as_deref(), None);
    assert_eq!(optional_trimmed("edge-1").as_deref(), Some("edge-1"));
    assert_eq!(optional_trimmed(" edge-1\t").as_deref(), Some("edge-1"));
}

#[test]
fn overrides_take_the_place_of_configured_values() {
    let mut env = no_overrides();
    env.port = Some("7000".to_string());
    env.admin_token = Some("token-from-env".to_string());
    env.api_keys = Some(" one, ,two ".to_string());
    env.telemetry_enabled = Some("YES".to_string());
    env.ingestion_url = Some("https://plane.example/ingest".to_string());
    env.api_key = Some("k".to_string());
    env.firewall_instance_id = Some("fw".to_string());
    let loaded = match AppConfig::load(base_config(), env) {
        Ok(c) => c,
        Err(e) => panic!("{}", e.message()),
    };
    assert_eq!(loaded.server.public_bind_addr, "0.0.0.0:7000");
    assert_eq!(loaded.server.admin_bind_addr, "127.0.0.1:9090");
    assert_eq!(loaded.auth.admin.token, "token-from-env");
    assert_eq!(loaded.auth.api_keys, vec!["one".to_string(), "two".to_string()]);
    assert!(loaded.control_plane.telemetry_enabled);
    assert_eq!(loaded.control_plane.ingestion_url, "https://plane.example/ingest");
}

#[test]
fn an_explicit_bind_address_wins_over_the_port() {
    let mut env = no_overrides();
    env.port = Some("7000".to_string());
    env.public_bind_addr = Some("10.0.0.1:80".to_string());
    let loaded = AppConfig::load(base_config(), env);
    assert!(matches!(loaded, Ok(c) if c.server.public_bind_addr == "10.0.0.1:80"));
}

#[test]
fn words_that_switch_on() {
    for word in ["1", "true", "TRUE", " yes ", "on", "enabled"] {
        assert!(parse_bool_env(word), "{}", word);
    }
    for word in ["0", "false", "", "off", "y"] {
        assert!(!parse_bool_env(word), "{}", word);
    }
}

#[test]
fn control_plane_faults_are_named_in_order() {
    let enrollment = |url: &str, token: &str| ControlPlaneConfig {
        enrollment_enabled: true,
        enrollment_url: url.to_string(),
        enrollment_token: token.to_string(),
        ..ControlPlaneConfig::default()
    };
    assert_eq!(enrollment(" ", "t").validate(), Err(ConfigError::EnrollmentUrlMissing));
    assert_eq!(enrollment("u", "").validate(), Err(ConfigError::EnrollmentTokenMissing));
    assert_eq!(enrollment("u", "t").validate(), Ok(()));

    let telemetry = |url: &str, key: &str, id: &str| ControlPlaneConfig {
        telemetry_enabled: true,
        ingestion_url: url.to_string(),
        api_key: key.to_string(),
        firewall_instance_id: id.to_string(),
        ..ControlPlaneConfig::default()
    };
    assert_eq!(telemetry("", "k", "f").validate(), Err(ConfigError::IngestionUrlMissing));
    assert_eq!(telemetry("u", "", "f").validate(), Err(ConfigError::ApiKeyMissing));
    assert_eq!(telemetry("u", "k", "").validate(), Err(ConfigError::FirewallInstanceIdMissing));
    assert_eq!(telemetry("u", "k", "f").validate(), Ok(()));

    let timeout = |ms: u64| ControlPlaneConfig {
        request_timeout_ms: ms,
        ..ControlPlaneConfig::default()
    };
    assert_eq!(timeout(0).validate(), Err(ConfigError::RequestTimeoutOutOfRange));
    assert_eq!(timeout(30_000).validate(), Ok(()));
    assert_eq!(timeout(30_001).validate(), Err(ConfigError::RequestTimeoutOutOfRange));

    let queue = |n: usize| ControlPlaneConfig {
        queue_capacity: n,
        ..ControlPlaneConfig::default()
    };
    assert_eq!(queue(0).validate(), Err(ConfigError::QueueCapacityOutOfRange));
    assert_eq!(queue(100_000).validate(), Ok(()));
    assert_eq!(queue(100_001).validate(), Err(ConfigError::QueueCapacityOutOfRange));
}

#[test]
fn security_faults_are_named() {
    let mut c = base_config();
    c.security.min_block_confidence = 1_000_001;
    assert_eq!(c.validate(), Err(ConfigError::MinBlockConfidenceOutOfRange));

    let mut c = base_config();
    c.security.min_block_score = -1;
    assert_eq!(c.validate(), Err(ConfigError::MinBlockScoreOutOfRange));

    let exception = |id: &str, parameter: &str, confidence: i64| DetectorException {
        detector_id: id.to_string(),
        path_prefix: None,
        parameter: Some(parameter.to_string()),
        min_confidence: Some(confidence),
        monitor_only: false,
        reason: None,
    };
    let mut c = base_config();
    c.security.detector_exceptions = vec![exception(" ", "q", 0)];
    assert_eq!(c.validate(), Err(ConfigError::ExceptionDetectorIdEmpty));
    c.security.detector_exceptions = vec![exception("UZ-SQLI-001", "q", 2_000_000)];
    assert_eq!(c.validate(), Err(ConfigError::ExceptionConfidenceOutOfRange));
    c.security.detector_exceptions = vec![exception("UZ-SQLI-001", "a b", 0)];
    assert_eq!(c.validate(), Err(ConfigError::ExceptionParameterInvalid));
    c.security.detector_exceptions = vec![exception("UZ-SQLI-001", "query.q", 500_000)];
    assert_eq!(c.validate(), Ok(()));

    let mut c = base_config();
    c.discovery.max_decode_passes = 5;
    assert_eq!(c.validate(), Err(ConfigError::TooManyDecodePasses));

    let mut c = base_config();
    c.discovery.max_normalized_bytes = 262_145;
    assert_eq!(c.validate(), Err(ConfigError::NormalizedBytesOutOfRange));
    assert_eq!(
        ConfigError::NormalizedBytesOutOfRange.message(),
        "discovery.max_normalized_bytes must be between 1 and 262144"
    );
}

#[test]
fn production_refuses_placeholder_secrets() {
    let mut c = base_config();
    c.server.environment = "production".to_string();
    c.auth.enabled = true;
    assert_eq!(c.validate(), Ok(()));

    c.auth.admin.token = " ".to_string();
    assert_eq!(c.validate(), Err(ConfigError::AdminTokenEmpty));
    c.auth.admin.token = "replace-me-admin-token".to_string();
    assert_eq!(c.validate(), Err(ConfigError::AdminTokenPlaceholder));
    c.auth.admin.token = "a-long-random-value".to_string();

    c.auth.api_keys = Vec::new();
    assert_eq!(c.validate(), Err(ConfigError::ApiKeysEmpty));
    c.auth.api_keys = vec!["replace-me-in-production".to_string()];
    assert_eq!(c.validate(), Err(ConfigError::ApiKeyPlaceholder));

    assert!(is_known_placeholder_secret(" dev-admin-token-1 "));
    assert!(!is_known_placeholder_secret("a-long-random-value"));
}

#[test]
fn parameter_selectors() {
    assert_eq!(validate_detector_exception_parameter("query.user-id_1"), Ok(()));
    let longest = "a".repeat(120);
    assert_eq!(validate_detector_exception_parameter(&longest), Ok(()));
    let too_long = "a".repeat(121);
    for bad in ["", "a/b", "caf\u{e9}", too_long.as_str()] {
        assert_eq!(
            validate_detector_exception_parameter(bad),
            Err(ConfigError::ExceptionParameterInvalid)
        );
    }
}

#[test]
fn enrollment_sends_what_is_filled_in() {
    let mut c = ControlPlaneConfig::default();
    assert!(enrollment_request(&c).is_none());

    c.enrollment_enabled = true;
    c.enrollment_url = "https://plane.example/enroll/".to_string();
    c.enrollment_token = "tok".to_string();
    c.hostname = " edge-1 ".to_string();
    let (_, request) = match enrollment_request(&c) {
        Some(r) => r,
        None => panic!("enrollment is due"),
    };
    assert_eq!(request.enrollment_token, "tok");
    assert_eq!(request.hostname.as_deref(), Some("edge-1"));
    assert_eq!(request.region, None);
    assert_eq!(request.version.as_deref(), Some("0.1.0"));

    assert_eq!(check_enrollment_status(201), Ok(()));
    assert!(matches!(check_enrollment_status(403), Err(EnrollmentError::Refused(403))));

    let answer = |success: bool, key: &str| EnrollmentResponse {
        success,
        data: Some(EnrollmentData {
            firewall: EnrolledFirewall { id: "fw-9".to_string() },
            plaintext_api_key: key.to_string(),
        }),
    };
    assert!(accept_enrollment(&mut c, answer(false, "k")).is_err());
    assert!(accept_enrollment(&mut c, EnrollmentResponse { success: true, data: None }).is_err());
    assert_eq!(c.firewall_instance_id, "");
    assert!(accept_enrollment(&mut c, answer(true, "k")).is_ok());
    assert_eq!(c.firewall_instance_id, "fw-9");
    assert_eq!(c.api_key, "k");
}

#[test]
fn rule_modes_come_from_the_longest_matching_route() {
    let mut c = base_config();
    c.security.rule_modes = rule_modes(&[("UZ-SQLI-001", RuleMode::Block)]);
    c.security.rate_limit = RateLimitConfig { requests_per_window: 7, window_secs: 9 };
    let policy = LivePolicyState::from_config(&c, 5);
    assert_eq!(resolve_rule_mode(&policy, "/x", "UZ-SQLI-001"), RuleMode::Block);
    assert_eq!(resolve_rule_mode(&policy, "/x", "UZ-XSS-001"), RuleMode::DetectOnly);
    let (_, limit, window) = resolve_rate_limit_for_path(&policy, &c, "/x");
    assert_eq!((limit, window), (7, 9));
    assert_eq!(policy.updated_at, Some(5));
}
