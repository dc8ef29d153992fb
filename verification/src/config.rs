//! Configuration values and their validation.
//!
//! Confidence and score values are fixed-point integers: one unit is a millionth, so that a
//! confidence of one is `1_000_000` and a score of one hundred is `100_000_000`.

use crate::outside;
use crate::table::Table;
use crate::text;
use vstd::prelude::*;

verus! {

/// One, in the fixed-point unit of confidences and scores.
pub const UNIT: i64 = 1_000_000;

#[derive(Debug, Clone, Copy, PartialEq, Eq, Structural)]
pub enum PolicyMode {
    Monitor,
    Balanced,
    Strict,
}

#[derive(Debug, Clone, Copy, PartialEq, Eq, Structural)]
pub enum RuleMode {
    DetectOnly,
    Recommend,
    Block,
}

#[derive(Debug, Clone, Copy, PartialEq, Eq, Structural)]
pub enum SpecUnknownRouteMode {
    Allow,
    Detect,
    Block,
}

#[derive(Debug, Clone, Copy, PartialEq, Eq, Structural)]
pub enum RouteSensitivity {
    PublicLow,
    AuthenticatedStandard,
    SensitiveAccount,
    TenantAdmin,
    HighRiskExport,
    WriteCritical,
}

#[derive(Debug, Clone, Copy, PartialEq, Eq, Structural)]
pub enum SchemaFieldKind {
    Any,
    String,
    Number,
    Boolean,
    Object,
    Array,
}

impl Default for PolicyMode {
    fn default() -> (r: Self)
        ensures
            r == PolicyMode::Balanced,
    {
        PolicyMode::Balanced
    }
}

impl Default for RuleMode {
    fn default() -> (r: Self)
        ensures
            r == RuleMode::DetectOnly,
    {
        RuleMode::DetectOnly
    }
}

impl Default for SpecUnknownRouteMode {
    fn default() -> (r: Self)
        ensures
            r == SpecUnknownRouteMode::Detect,
    {
        SpecUnknownRouteMode::Detect
    }
}

impl Default for RouteSensitivity {
    fn default() -> (r: Self)
        ensures
            r == RouteSensitivity::AuthenticatedStandard,
    {
        RouteSensitivity::AuthenticatedStandard
    }
}

impl Default for SchemaFieldKind {
    fn default() -> (r: Self)
        ensures
            r == SchemaFieldKind::Any,
    {
        SchemaFieldKind::Any
    }
}

impl DeepView for RuleMode {
    type V = RuleMode;

    open spec fn deep_view(&self) -> RuleMode {
        *self
    }
}

/// The mode of each rule, by rule identifier.
pub type RuleModes = Table<RuleMode>;

#[derive(Debug)]
pub struct ServerConfig {
    pub public_bind_addr: String,
    pub admin_bind_addr: String,
    pub trust_x_forwarded_for: bool,
    pub environment: String,
    pub admin_public_health_enabled: bool,
}

#[derive(Debug)]
pub struct ProxyConfig {
    pub upstream_base_url: String,
    pub connect_timeout_secs: u64,
    pub request_timeout_secs: u64,
    pub pool_idle_timeout_secs: u64,
    pub max_body_bytes: usize,
}

#[derive(Debug)]
pub struct RateLimitConfig {
    pub requests_per_window: u64,
    pub window_secs: u64,
}

#[derive(Debug)]
pub struct TelemetryConfig {
    pub log_level: String,
    pub security_event_log_path: String,
}

#[derive(Debug)]
pub struct StorageConfig {
    pub sqlite_path: String,
}

#[derive(Debug)]
pub struct AdminAuthConfig {
    pub enabled: bool,
    pub header_name: String,
    pub token: String,
}

#[derive(Debug)]
pub struct AuthConfig {
    pub enabled: bool,
    pub header_name: String,
    pub api_keys: Vec<String>,
    pub protected_path_prefixes: Vec<String>,
    pub admin: AdminAuthConfig,
}

/// Findings of one detector that are recorded but never lead to a block.
#[derive(Debug)]
pub struct DetectorException {
    pub detector_id: String,
    pub path_prefix: Option<String>,
    pub parameter: Option<String>,
    /// In fixed-point units.
    pub min_confidence: Option<i64>,
    pub monitor_only: bool,
    pub reason: Option<String>,
}

#[verifier::ext_equal]
pub struct DetectorExceptionView {
    pub detector_id: Seq<char>,
    pub path_prefix: Option<Seq<char>>,
    pub parameter: Option<Seq<char>>,
    pub min_confidence: Option<i64>,
    pub monitor_only: bool,
    pub reason: Option<Seq<char>>,
}

impl DeepView for DetectorException {
    type V = DetectorExceptionView;

    open spec fn deep_view(&self) -> DetectorExceptionView {
        DetectorExceptionView {
            detector_id: self.detector_id@,
            path_prefix: self.path_prefix.deep_view(),
            parameter: self.parameter.deep_view(),
            min_confidence: self.min_confidence,
            monitor_only: self.monitor_only,
            reason: self.reason.deep_view(),
        }
    }
}

impl Clone for DetectorException {
    fn clone(&self) -> (r: Self)
        ensures
            r == *self,
    {
        DetectorException {
            detector_id: self.detector_id.clone(),
            path_prefix: text::clone_option(&self.path_prefix),
            parameter: text::clone_option(&self.parameter),
            min_confidence: self.min_confidence,
            monitor_only: self.monitor_only,
            reason: text::clone_option(&self.reason),
        }
    }
}

#[derive(Debug)]
pub struct RoutePolicyOverride {
    pub path_prefix: String,
    pub rule_modes: RuleModes,
}

#[verifier::ext_equal]
pub struct RoutePolicyOverrideView {
    pub path_prefix: Seq<char>,
    pub rule_modes: Seq<(Seq<char>, RuleMode)>,
}

impl DeepView for RoutePolicyOverride {
    type V = RoutePolicyOverrideView;

    open spec fn deep_view(&self) -> RoutePolicyOverrideView {
        RoutePolicyOverrideView {
            path_prefix: self.path_prefix@,
            rule_modes: self.rule_modes.deep_view(),
        }
    }
}

impl Clone for RoutePolicyOverride {
    fn clone(&self) -> (r: Self)
        ensures
            r.deep_view() == self.deep_view(),
    {
        RoutePolicyOverride {
            path_prefix: self.path_prefix.clone(),
            rule_modes: self.rule_modes.clone(),
        }
    }
}

#[derive(Debug)]
pub struct RouteBehaviorOverride {
    pub path_prefix: String,
    pub warmup_min_samples: Option<u64>,
    pub object_enumeration_threshold: Option<usize>,
    pub object_window_secs: Option<u64>,
}

#[verifier::ext_equal]
pub struct RouteBehaviorOverrideView {
    pub path_prefix: Seq<char>,
    pub warmup_min_samples: Option<u64>,
    pub object_enumeration_threshold: Option<usize>,
    pub object_window_secs: Option<u64>,
}

impl DeepView for RouteBehaviorOverride {
    type V = RouteBehaviorOverrideView;

    open spec fn deep_view(&self) -> RouteBehaviorOverrideView {
        RouteBehaviorOverrideView {
            path_prefix: self.path_prefix@,
            warmup_min_samples: self.warmup_min_samples,
            object_enumeration_threshold: self.object_enumeration_threshold,
            object_window_secs: self.object_window_secs,
        }
    }
}

impl Clone for RouteBehaviorOverride {
    fn clone(&self) -> (r: Self)
        ensures
            r == *self,
    {
        RouteBehaviorOverride {
            path_prefix: self.path_prefix.clone(),
            warmup_min_samples: self.warmup_min_samples,
            object_enumeration_threshold: self.object_enumeration_threshold,
            object_window_secs: self.object_window_secs,
        }
    }
}

#[derive(Debug)]
pub struct RouteRateLimitOverride {
    pub path_prefix: String,
    pub requests_per_window: u64,
    pub window_secs: u64,
}

#[verifier::ext_equal]
pub struct RouteRateLimitOverrideView {
    pub path_prefix: Seq<char>,
    pub requests_per_window: u64,
    pub window_secs: u64,
}

impl DeepView for RouteRateLimitOverride {
    type V = RouteRateLimitOverrideView;

    open spec fn deep_view(&self) -> RouteRateLimitOverrideView {
        RouteRateLimitOverrideView {
            path_prefix: self.path_prefix@,
            requests_per_window: self.requests_per_window,
            window_secs: self.window_secs,
        }
    }
}

impl Clone for RouteRateLimitOverride {
    fn clone(&self) -> (r: Self)
        ensures
            r == *self,
    {
        RouteRateLimitOverride {
            path_prefix: self.path_prefix.clone(),
            requests_per_window: self.requests_per_window,
            window_secs: self.window_secs,
        }
    }
}

#[derive(Debug)]
pub struct SecurityConfig {
    pub blocked_methods: Vec<String>,
    pub request_id_header: String,
    pub inspect_headers: bool,
    pub inspect_query_string: bool,
    pub inspect_body: bool,
    pub max_inspection_body_bytes: usize,
    pub temp_ban_secs: u64,
    pub temp_suspicious_secs: u64,
    pub suspicious_score_threshold: i32,
    pub rate_limit: RateLimitConfig,
    pub rule_modes: RuleModes,
    pub policy_mode: PolicyMode,
    /// In fixed-point units.
    pub min_block_confidence: i64,
    /// In fixed-point units.
    pub min_block_score: i64,
    pub detector_exceptions: Vec<DetectorException>,
    pub route_overrides: Vec<RoutePolicyOverride>,
    pub route_rate_limits: Vec<RouteRateLimitOverride>,
    pub route_behavior_overrides: Vec<RouteBehaviorOverride>,
}

#[derive(Debug)]
pub struct ControlPlaneConfig {
    pub telemetry_enabled: bool,
    pub enrollment_enabled: bool,
    pub enrollment_url: String,
    pub enrollment_token: String,
    pub installation_identifier: String,
    pub hostname: String,
    pub version: String,
    pub region: String,
    pub ingestion_url: String,
    pub api_key: String,
    pub firewall_instance_id: String,
    pub request_timeout_ms: u64,
    pub queue_capacity: usize,
}

#[derive(Debug)]
pub struct SchemaFieldConfig {
    pub name: String,
    pub kind: SchemaFieldKind,
    pub required: bool,
}

#[verifier::ext_equal]
pub struct SchemaFieldConfigView {
    pub name: Seq<char>,
    pub kind: SchemaFieldKind,
    pub required: bool,
}

impl DeepView for SchemaFieldConfig {
    type V = SchemaFieldConfigView;

    open spec fn deep_view(&self) -> SchemaFieldConfigView {
        SchemaFieldConfigView {
            name: self.name@,
            kind: self.kind,
            required: self.required,
        }
    }
}

impl Clone for SchemaFieldConfig {
    fn clone(&self) -> (r: Self)
        ensures
            r == *self,
    {
        SchemaFieldConfig {
            name: self.name.clone(),
            kind: self.kind,
            required: self.required,
        }
    }
}

#[derive(Debug)]
pub struct BodySchemaConfig {
    pub require_json: bool,
    pub required_fields: Vec<SchemaFieldConfig>,
    pub max_depth: usize,
    pub max_fields: usize,
}

#[verifier::ext_equal]
pub struct BodySchemaConfigView {
    pub require_json: bool,
    pub required_fields: Seq<SchemaFieldConfigView>,
    pub max_depth: usize,
    pub max_fields: usize,
}

impl DeepView for BodySchemaConfig {
    type V = BodySchemaConfigView;

    open spec fn deep_view(&self) -> BodySchemaConfigView {
        BodySchemaConfigView {
            require_json: self.require_json,
            required_fields: self.required_fields.deep_view(),
            max_depth: self.max_depth,
            max_fields: self.max_fields,
        }
    }
}

impl Clone for BodySchemaConfig {
    fn clone(&self) -> (r: Self)
        ensures
            r.deep_view() == self.deep_view(),
    {
        let required_fields = self.required_fields.clone();
        assert(required_fields.deep_view() =~= self.required_fields.deep_view());
        BodySchemaConfig {
            require_json: self.require_json,
            required_fields,
            max_depth: self.max_depth,
            max_fields: self.max_fields,
        }
    }
}

#[derive(Debug)]
pub struct ConfiguredRouteSpec {
    pub method: String,
    pub path_template: String,
    pub auth_required: bool,
    pub required_headers: Vec<String>,
    pub required_query: Vec<String>,
    pub required_scopes: Vec<String>,
    pub sensitivity: RouteSensitivity,
    pub body: BodySchemaConfig,
}

#[derive(Debug)]
pub struct SpecConfig {
    pub enabled: bool,
    pub unknown_route_mode: SpecUnknownRouteMode,
    pub routes: Vec<ConfiguredRouteSpec>,
}

#[derive(Debug)]
pub struct JwtConfig {
    pub enabled: bool,
    pub expected_issuer: Option<String>,
    pub expected_audience: Option<String>,
    pub header_name: String,
    pub reject_alg_none: bool,
}

/// Limits of the behaviour baselines. The thresholds on standard scores are kept with the code
/// that computes those scores.
#[derive(Debug)]
pub struct BehaviorConfig {
    pub enabled: bool,
    pub warmup_min_samples: u64,
    pub object_enumeration_threshold: usize,
    pub object_window_secs: u64,
    pub auth_attempt_window_secs: u64,
    pub auth_bruteforce_threshold: usize,
    pub password_spray_threshold: usize,
    pub max_entries: usize,
    pub max_ids_per_entry: usize,
}

#[derive(Debug)]
pub struct ResponseSecurityConfig {
    pub enabled: bool,
    pub max_json_fields: usize,
    pub mask_token_exposure: bool,
}

#[derive(Debug)]
pub struct DiscoveryConfig {
    pub enabled: bool,
    pub shadow_min_hits: u64,
    pub max_learned_routes: usize,
    pub schema_min_samples: u64,
    pub max_schema_routes: usize,
    pub max_schema_fields: usize,
    pub max_json_depth: usize,
    pub max_json_array_len: usize,
    pub max_query_params: usize,
    pub max_normalized_bytes: usize,
    pub max_decode_passes: usize,
}

#[derive(Debug)]
pub struct AppConfig {
    pub server: ServerConfig,
    pub proxy: ProxyConfig,
    pub security: SecurityConfig,
    pub telemetry: TelemetryConfig,
    pub control_plane: ControlPlaneConfig,
    pub auth: AuthConfig,
    pub storage: StorageConfig,
    pub spec: SpecConfig,
    pub jwt: JwtConfig,
    pub behavior: BehaviorConfig,
    pub response_security: ResponseSecurityConfig,
    pub discovery: DiscoveryConfig,
}

pub fn default_control_plane_request_timeout_ms() -> (r: u64)
    ensures
        r == 5_000,
{
    5_000
}

pub fn default_control_plane_queue_capacity() -> (r: usize)
    ensures
        r == 1_024,
{
    1_024
}

pub fn default_min_block_confidence() -> (r: i64)
    ensures
        r == 850_000,
{
    850_000
}

pub fn default_min_block_score() -> (r: i64)
    ensures
        r == 65_000_000,
{
    65_000_000
}

pub fn default_warmup_min_samples() -> (r: u64)
    ensures
        r == 5,
{
    5
}

pub fn default_object_enumeration_threshold() -> (r: usize)
    ensures
        r == 15,
{
    15
}

pub fn default_object_window_secs() -> (r: u64)
    ensures
        r == 300,
{
    300
}

pub fn default_auth_attempt_window_secs() -> (r: u64)
    ensures
        r == 300,
{
    300
}

pub fn default_auth_bruteforce_threshold() -> (r: usize)
    ensures
        r == 8,
{
    8
}

pub fn default_password_spray_threshold() -> (r: usize)
    ensures
        r == 5,
{
    5
}

pub fn default_behavior_max_entries() -> (r: usize)
    ensures
        r == 10_000,
{
    10_000
}

pub fn default_behavior_max_ids_per_entry() -> (r: usize)
    ensures
        r == 128,
{
    128
}

pub fn default_shadow_min_hits() -> (r: u64)
    ensures
        r == 3,
{
    3
}

pub fn default_max_learned_routes() -> (r: usize)
    ensures
        r == 5_000,
{
    5_000
}

pub fn default_schema_min_samples() -> (r: u64)
    ensures
        r == 5,
{
    5
}

pub fn default_max_schema_routes() -> (r: usize)
    ensures
        r == 2_000,
{
    2_000
}

pub fn default_max_schema_fields() -> (r: usize)
    ensures
        r == 80,
{
    80
}

pub fn default_max_json_depth() -> (r: usize)
    ensures
        r == 16,
{
    16
}

pub fn default_max_json_array_len() -> (r: usize)
    ensures
        r == 200,
{
    200
}

pub fn default_max_query_params() -> (r: usize)
    ensures
        r == 100,
{
    100
}

pub fn default_max_normalized_bytes() -> (r: usize)
    ensures
        r == 16_384,
{
    16_384
}

pub fn default_max_decode_passes() -> (r: usize)
    ensures
        r == 2,
{
    2
}

impl Default for ControlPlaneConfig {
    fn default() -> (r: Self)
        ensures
            !r.telemetry_enabled && !r.enrollment_enabled,
            r.enrollment_url@ == ""@,
            r.enrollment_token@ == ""@,
            r.installation_identifier@ == ""@,
            r.hostname@ == ""@,
            r.version@ == "0.1.0"@,
            r.region@ == ""@,
            r.ingestion_url@ == ""@,
            r.api_key@ == ""@,
            r.firewall_instance_id@ == ""@,
            r.request_timeout_ms == 5_000,
            r.queue_capacity == 1_024,
    {
        ControlPlaneConfig {
            telemetry_enabled: false,
            enrollment_enabled: false,
            enrollment_url: "".to_string(),
            enrollment_token: "".to_string(),
            installation_identifier: "".to_string(),
            hostname: "".to_string(),
            version: "0.1.0".to_string(),
            region: "".to_string(),
            ingestion_url: "".to_string(),
            api_key: "".to_string(),
            firewall_instance_id: "".to_string(),
            request_timeout_ms: default_control_plane_request_timeout_ms(),
            queue_capacity: default_control_plane_queue_capacity(),
        }
    }
}

impl Default for SpecConfig {
    fn default() -> (r: Self)
        ensures
            !r.enabled,
            r.unknown_route_mode == SpecUnknownRouteMode::Detect,
            r.routes@.len() == 0,
    {
        SpecConfig {
            enabled: false,
            unknown_route_mode: SpecUnknownRouteMode::Detect,
            routes: Vec::new(),
        }
    }
}

impl Default for BodySchemaConfig {
    fn default() -> (r: Self)
        ensures
            !r.require_json,
            r.required_fields@.len() == 0,
            r.max_depth == 0,
            r.max_fields == 0,
    {
        BodySchemaConfig {
            require_json: false,
            required_fields: Vec::new(),
            max_depth: 0,
            max_fields: 0,
        }
    }
}

impl Default for JwtConfig {
    fn default() -> (r: Self)
        ensures
            !r.enabled,
            r.expected_issuer is None,
            r.expected_audience is None,
            r.header_name@ == "authorization"@,
            r.reject_alg_none,
    {
        JwtConfig {
            enabled: false,
            expected_issuer: None,
            expected_audience: None,
            header_name: "authorization".to_string(),
            reject_alg_none: true,
        }
    }
}

impl Default for BehaviorConfig {
    fn default() -> (r: Self)
        ensures
            r == (BehaviorConfig {
                enabled: false,
                warmup_min_samples: 5,
                object_enumeration_threshold: 15,
                object_window_secs: 300,
                auth_attempt_window_secs: 300,
                auth_bruteforce_threshold: 8,
                password_spray_threshold: 5,
                max_entries: 10_000,
                max_ids_per_entry: 128,
            }),
    {
        BehaviorConfig {
            enabled: false,
            warmup_min_samples: default_warmup_min_samples(),
            object_enumeration_threshold: default_object_enumeration_threshold(),
            object_window_secs: default_object_window_secs(),
            auth_attempt_window_secs: default_auth_attempt_window_secs(),
            auth_bruteforce_threshold: default_auth_bruteforce_threshold(),
            password_spray_threshold: default_password_spray_threshold(),
            max_entries: default_behavior_max_entries(),
            max_ids_per_entry: default_behavior_max_ids_per_entry(),
        }
    }
}

impl Default for ResponseSecurityConfig {
    fn default() -> (r: Self)
        ensures
            r == (ResponseSecurityConfig {
                enabled: false,
                max_json_fields: 200,
                mask_token_exposure: true,
            }),
    {
        ResponseSecurityConfig { enabled: false, max_json_fields: 200, mask_token_exposure: true }
    }
}

impl Default for DiscoveryConfig {
    fn default() -> (r: Self)
        ensures
            r == (DiscoveryConfig {
                enabled: false,
                shadow_min_hits: 3,
                max_learned_routes: 5_000,
                schema_min_samples: 5,
                max_schema_routes: 2_000,
                max_schema_fields: 80,
                max_json_depth: 16,
                max_json_array_len: 200,
                max_query_params: 100,
                max_normalized_bytes: 16_384,
                max_decode_passes: 2,
            }),
    {
        DiscoveryConfig {
            enabled: false,
            shadow_min_hits: default_shadow_min_hits(),
            max_learned_routes: default_max_learned_routes(),
            schema_min_samples: default_schema_min_samples(),
            max_schema_routes: default_max_schema_routes(),
            max_schema_fields: default_max_schema_fields(),
            max_json_depth: default_max_json_depth(),
            max_json_array_len: default_max_json_array_len(),
            max_query_params: default_max_query_params(),
            max_normalized_bytes: default_max_normalized_bytes(),
            max_decode_passes: default_max_decode_passes(),
        }
    }
}

/// What a configuration is refused for.
#[derive(Debug, Clone, Copy, PartialEq, Eq, Structural)]
pub enum ConfigError {
    EnrollmentUrlMissing,
    EnrollmentTokenMissing,
    IngestionUrlMissing,
    ApiKeyMissing,
    FirewallInstanceIdMissing,
    RequestTimeoutOutOfRange,
    QueueCapacityOutOfRange,
    MinBlockConfidenceOutOfRange,
    MinBlockScoreOutOfRange,
    ExceptionDetectorIdEmpty,
    ExceptionConfidenceOutOfRange,
    ExceptionParameterInvalid,
    TooManyDecodePasses,
    NormalizedBytesOutOfRange,
    AdminTokenEmpty,
    AdminTokenPlaceholder,
    ApiKeysEmpty,
    ApiKeyPlaceholder,
}

/// The text that an operator is shown for each error.
pub open spec fn config_error_text(e: ConfigError) -> Seq<char> {
    match e {
        ConfigError::EnrollmentUrlMissing => "control-plane enrollment is enabled but enrollment_url is missing"@,
        ConfigError::EnrollmentTokenMissing => "control-plane enrollment is enabled but enrollment_token is missing"@,
        ConfigError::IngestionUrlMissing => "control-plane telemetry is enabled but ingestion_url is missing"@,
        ConfigError::ApiKeyMissing => "control-plane telemetry is enabled but api_key is missing"@,
        ConfigError::FirewallInstanceIdMissing => "control-plane telemetry is enabled but firewall_instance_id is missing"@,
        ConfigError::RequestTimeoutOutOfRange => "control-plane telemetry request_timeout_ms must be between 1 and 30000"@,
        ConfigError::QueueCapacityOutOfRange => "control-plane telemetry queue_capacity must be between 1 and 100000"@,
        ConfigError::MinBlockConfidenceOutOfRange => "security.min_block_confidence must be between 0 and 1"@,
        ConfigError::MinBlockScoreOutOfRange => "security.min_block_score must be between 0 and 100"@,
        ConfigError::ExceptionDetectorIdEmpty => "detector exception detector_id must not be empty"@,
        ConfigError::ExceptionConfidenceOutOfRange => "detector exception min_confidence must be between 0 and 1"@,
        ConfigError::ExceptionParameterInvalid => "security.detector_exceptions parameter selector is invalid"@,
        ConfigError::TooManyDecodePasses => "discovery.max_decode_passes must be 4 or less"@,
        ConfigError::NormalizedBytesOutOfRange => "discovery.max_normalized_bytes must be between 1 and 262144"@,
        ConfigError::AdminTokenEmpty => "production config requires a non-empty admin token; set FIREWALL_ADMIN_TOKEN or auth.admin.token"@,
        ConfigError::AdminTokenPlaceholder => "production config refuses placeholder admin token; set FIREWALL_ADMIN_TOKEN to a production secret"@,
        ConfigError::ApiKeysEmpty => "production config requires at least one API key; set FIREWALL_API_KEYS or auth.api_keys"@,
        ConfigError::ApiKeyPlaceholder => "production config refuses placeholder API keys; set FIREWALL_API_KEYS to production secrets"@,
    }
}

impl ConfigError {
    pub fn message(&self) -> (r: &'static str)
        ensures
            r@ == config_error_text(*self),
    {
        match self {
            ConfigError::EnrollmentUrlMissing => "control-plane enrollment is enabled but enrollment_url is missing",
            ConfigError::EnrollmentTokenMissing => "control-plane enrollment is enabled but enrollment_token is missing",
            ConfigError::IngestionUrlMissing => "control-plane telemetry is enabled but ingestion_url is missing",
            ConfigError::ApiKeyMissing => "control-plane telemetry is enabled but api_key is missing",
            ConfigError::FirewallInstanceIdMissing => "control-plane telemetry is enabled but firewall_instance_id is missing",
            ConfigError::RequestTimeoutOutOfRange => "control-plane telemetry request_timeout_ms must be between 1 and 30000",
            ConfigError::QueueCapacityOutOfRange => "control-plane telemetry queue_capacity must be between 1 and 100000",
            ConfigError::MinBlockConfidenceOutOfRange => "security.min_block_confidence must be between 0 and 1",
            ConfigError::MinBlockScoreOutOfRange => "security.min_block_score must be between 0 and 100",
            ConfigError::ExceptionDetectorIdEmpty => "detector exception detector_id must not be empty",
            ConfigError::ExceptionConfidenceOutOfRange => "detector exception min_confidence must be between 0 and 1",
            ConfigError::ExceptionParameterInvalid => "security.detector_exceptions parameter selector is invalid",
            ConfigError::TooManyDecodePasses => "discovery.max_decode_passes must be 4 or less",
            ConfigError::NormalizedBytesOutOfRange => "discovery.max_normalized_bytes must be between 1 and 262144",
            ConfigError::AdminTokenEmpty => "production config requires a non-empty admin token; set FIREWALL_ADMIN_TOKEN or auth.admin.token",
            ConfigError::AdminTokenPlaceholder => "production config refuses placeholder admin token; set FIREWALL_ADMIN_TOKEN to a production secret",
            ConfigError::ApiKeysEmpty => "production config requires at least one API key; set FIREWALL_API_KEYS or auth.api_keys",
            ConfigError::ApiKeyPlaceholder => "production config refuses placeholder API keys; set FIREWALL_API_KEYS to production secrets",
        }
    }
}

/// Whether a string holds nothing but white space.
pub open spec fn blank(s: Seq<char>) -> bool {
    text::trim_of(s).len() == 0
}

pub fn is_blank(s: &str) -> (r: bool)
    ensures
        r == blank(s@),
{
    text::trim(s).as_str().is_empty()
}

/// The first thing wrong with a control-plane configuration, if anything is.
pub open spec fn control_plane_error(c: ControlPlaneConfig) -> Option<ConfigError> {
    if c.enrollment_enabled && blank(c.enrollment_url@) {
        Some(ConfigError::EnrollmentUrlMissing)
    } else if c.enrollment_enabled && blank(c.enrollment_token@) {
        Some(ConfigError::EnrollmentTokenMissing)
    } else if c.telemetry_enabled && blank(c.ingestion_url@) {
        Some(ConfigError::IngestionUrlMissing)
    } else if c.telemetry_enabled && !c.enrollment_enabled && blank(c.api_key@) {
        Some(ConfigError::ApiKeyMissing)
    } else if c.telemetry_enabled && !c.enrollment_enabled && blank(c.firewall_instance_id@) {
        Some(ConfigError::FirewallInstanceIdMissing)
    } else if c.request_timeout_ms == 0 || c.request_timeout_ms > 30_000 {
        Some(ConfigError::RequestTimeoutOutOfRange)
    } else if c.queue_capacity == 0 || c.queue_capacity > 100_000 {
        Some(ConfigError::QueueCapacityOutOfRange)
    } else {
        None
    }
}

/// `Ok` where there is no error, else that error.
pub open spec fn verdict(e: Option<ConfigError>) -> Result<(), ConfigError> {
    match e {
        Some(e) => Err(e),
        None => Ok(()),
    }
}

impl ControlPlaneConfig {
    pub fn validate(&self) -> (r: Result<(), ConfigError>)
        ensures
            r == verdict(control_plane_error(*self)),
    {
        if self.enrollment_enabled {
            if is_blank(self.enrollment_url.as_str()) {
                return Err(ConfigError::EnrollmentUrlMissing);
            }
            if is_blank(self.enrollment_token.as_str()) {
                return Err(ConfigError::EnrollmentTokenMissing);
            }
        }
        if self.telemetry_enabled {
            if is_blank(self.ingestion_url.as_str()) {
                return Err(ConfigError::IngestionUrlMissing);
            }
            if is_blank(self.api_key.as_str()) && !self.enrollment_enabled {
                return Err(ConfigError::ApiKeyMissing);
            }
            if is_blank(self.firewall_instance_id.as_str()) && !self.enrollment_enabled {
                return Err(ConfigError::FirewallInstanceIdMissing);
            }
        }
        if self.request_timeout_ms == 0 || self.request_timeout_ms > 30_000 {
            return Err(ConfigError::RequestTimeoutOutOfRange);
        }
        if self.queue_capacity == 0 || self.queue_capacity > 100_000 {
            return Err(ConfigError::QueueCapacityOutOfRange);
        }
        Ok(())
    }
}

/// A character that may stand in a parameter selector.
pub open spec fn is_selector_char(c: char) -> bool {
    ||| 'a' <= c && c <= 'z'
    ||| 'A' <= c && c <= 'Z'
    ||| '0' <= c && c <= '9'
    ||| c == '_'
    ||| c == '-'
    ||| c == '.'
}

/// A parameter selector: one to 120 selector characters.
pub open spec fn valid_selector(s: Seq<char>) -> bool {
    &&& 0 < s.len()
    &&& text::byte_len_of(s) <= 120
    &&& forall|i: int| 0 <= i < s.len() ==> is_selector_char(#[trigger] s[i])
}

pub fn validate_detector_exception_parameter(parameter: &str) -> (r: Result<(), ConfigError>)
    ensures
        r == (if valid_selector(parameter@) {
            Ok::<(), ConfigError>(())
        } else {
            Err(ConfigError::ExceptionParameterInvalid)
        }),
{
    let x = text::chars_of(parameter);
    if x.len() == 0 || text::byte_len(parameter) > 120 {
        return Err(ConfigError::ExceptionParameterInvalid);
    }
    let mut i: usize = 0;
    while i < x.len()
        invariant
            x@ == parameter@,
            i <= x@.len(),
            forall|j: int| 0 <= j < i ==> is_selector_char(#[trigger] x@[j]),
        decreases x@.len() - i,
    {
        let c = x[i];
        if !(('a' <= c && c <= 'z') || ('A' <= c && c <= 'Z') || ('0' <= c && c <= '9') || c == '_'
            || c == '-' || c == '.') {
            assert(!is_selector_char(parameter@[i as int]));
            return Err(ConfigError::ExceptionParameterInvalid);
        }
        i = i + 1;
    }
    Ok(())
}

/// The first thing wrong with a detector exception, if anything is.
pub open spec fn exception_error(e: DetectorException) -> Option<ConfigError> {
    if blank(e.detector_id@) {
        Some(ConfigError::ExceptionDetectorIdEmpty)
    } else if e.min_confidence is Some && !(0 <= e.min_confidence->0 <= UNIT) {
        Some(ConfigError::ExceptionConfidenceOutOfRange)
    } else if e.parameter is Some && !valid_selector(e.parameter->0@) {
        Some(ConfigError::ExceptionParameterInvalid)
    } else {
        None
    }
}

/// The error of the first of the exceptions that has one.
pub open spec fn exceptions_error(s: Seq<DetectorException>) -> Option<ConfigError>
    decreases s.len(),
{
    if s.len() == 0 {
        None
    } else if exception_error(s[0]) is Some {
        exception_error(s[0])
    } else {
        exceptions_error(s.drop_first())
    }
}

fn validate_exception(e: &DetectorException) -> (r: Result<(), ConfigError>)
    ensures
        r == verdict(exception_error(*e)),
{
    if is_blank(e.detector_id.as_str()) {
        return Err(ConfigError::ExceptionDetectorIdEmpty);
    }
    if let Some(confidence) = e.min_confidence {
        if confidence < 0 || confidence > UNIT {
            return Err(ConfigError::ExceptionConfidenceOutOfRange);
        }
    }
    if let Some(parameter) = &e.parameter {
        validate_detector_exception_parameter(parameter.as_str())?;
    }
    Ok(())
}

/// A secret that ships with the sample configurations.
pub open spec fn placeholder_secret(s: Seq<char>) -> bool {
    let t = text::trim_of(s);
    ||| t.len() == 0
    ||| t == "dev-admin-token-1"@
    ||| t == "replace-me-admin-token"@
    ||| t == "replace-me-in-production"@
}

pub fn is_known_placeholder_secret(value: &str) -> (r: bool)
    ensures
        r == placeholder_secret(value@),
{
    let t = text::trim(value);
    t.as_str().is_empty() || text::same(t.as_str(), "dev-admin-token-1") || text::same(
        t.as_str(),
        "replace-me-admin-token",
    ) || text::same(t.as_str(), "replace-me-in-production")
}

/// What a configuration for production is refused for on top of all others.
pub open spec fn production_error(auth: AuthConfig) -> Option<ConfigError> {
    if auth.admin.enabled && blank(auth.admin.token@) {
        Some(ConfigError::AdminTokenEmpty)
    } else if auth.admin.enabled && placeholder_secret(auth.admin.token@) {
        Some(ConfigError::AdminTokenPlaceholder)
    } else if auth.enabled && auth.api_keys@.len() == 0 {
        Some(ConfigError::ApiKeysEmpty)
    } else if auth.enabled && exists|i: int|
        0 <= i < auth.api_keys@.len() && placeholder_secret(#[trigger] auth.api_keys@[i]@) {
        Some(ConfigError::ApiKeyPlaceholder)
    } else {
        None
    }
}

/// The first thing wrong with a configuration, if anything is.
pub open spec fn config_error(c: AppConfig) -> Option<ConfigError> {
    if control_plane_error(c.control_plane) is Some {
        control_plane_error(c.control_plane)
    } else if !(0 <= c.security.min_block_confidence <= UNIT) {
        Some(ConfigError::MinBlockConfidenceOutOfRange)
    } else if !(0 <= c.security.min_block_score <= 100 * UNIT) {
        Some(ConfigError::MinBlockScoreOutOfRange)
    } else if exceptions_error(c.security.detector_exceptions@) is Some {
        exceptions_error(c.security.detector_exceptions@)
    } else if c.discovery.max_decode_passes > 4 {
        Some(ConfigError::TooManyDecodePasses)
    } else if c.discovery.max_normalized_bytes == 0 || c.discovery.max_normalized_bytes > 262_144 {
        Some(ConfigError::NormalizedBytesOutOfRange)
    } else if text::lower_of(c.server.environment@) == text::lower_of("production"@) {
        production_error(c.auth)
    } else {
        None
    }
}

impl AppConfig {
    pub fn validate(&self) -> (r: Result<(), ConfigError>)
        ensures
            r == verdict(config_error(*self)),
    {
        self.control_plane.validate()?;
        if self.security.min_block_confidence < 0 || self.security.min_block_confidence > UNIT {
            return Err(ConfigError::MinBlockConfidenceOutOfRange);
        }
        if self.security.min_block_score < 0 || self.security.min_block_score > 100 * UNIT {
            return Err(ConfigError::MinBlockScoreOutOfRange);
        }
        let exceptions = &self.security.detector_exceptions;
        let mut i: usize = 0;
        assert(exceptions@.skip(0) =~= exceptions@);
        while i < exceptions.len()
            invariant
                i <= exceptions@.len(),
                exceptions@ == self.security.detector_exceptions@,
                exceptions_error(exceptions@) == exceptions_error(exceptions@.skip(i as int)),
                control_plane_error(self.control_plane) is None,
                0 <= self.security.min_block_confidence <= UNIT,
                0 <= self.security.min_block_score <= 100 * UNIT,
            decreases exceptions@.len() - i,
        {
            assert(exceptions@.skip(i as int)[0] == exceptions@[i as int]);
            validate_exception(&exceptions[i])?;
            assert(exceptions@.skip(i as int).drop_first() =~= exceptions@.skip(i + 1));
            i = i + 1;
        }
        if self.discovery.max_decode_passes > 4 {
            return Err(ConfigError::TooManyDecodePasses);
        }
        if self.discovery.max_normalized_bytes == 0 || self.discovery.max_normalized_bytes
            > 262_144 {
            return Err(ConfigError::NormalizedBytesOutOfRange);
        }
        if !text::eq_ignore_ascii_case(self.server.environment.as_str(), "production") {
            return Ok(());
        }
        validate_production(&self.auth)
    }
}

fn validate_production(auth: &AuthConfig) -> (r: Result<(), ConfigError>)
    ensures
        r == verdict(production_error(*auth)),
{
    if auth.admin.enabled {
        if is_blank(auth.admin.token.as_str()) {
            return Err(ConfigError::AdminTokenEmpty);
        }
        if is_known_placeholder_secret(auth.admin.token.as_str()) {
            return Err(ConfigError::AdminTokenPlaceholder);
        }
    }
    if auth.enabled {
        if auth.api_keys.len() == 0 {
            return Err(ConfigError::ApiKeysEmpty);
        }
        let mut i: usize = 0;
        while i < auth.api_keys.len()
            invariant
                i <= auth.api_keys@.len(),
                auth.enabled,
                auth.api_keys@.len() > 0,
                auth.admin.enabled ==> !blank(auth.admin.token@) && !placeholder_secret(
                    auth.admin.token@,
                ),
                forall|j: int|
                    0 <= j < i ==> !placeholder_secret(#[trigger] auth.api_keys@[j]@),
            decreases auth.api_keys@.len() - i,
        {
            if is_known_placeholder_secret(auth.api_keys[i].as_str()) {
                assert(placeholder_secret(auth.api_keys@[i as int]@));
                return Err(ConfigError::ApiKeyPlaceholder);
            }
            i = i + 1;
        }
    }
    Ok(())
}

/// The words that switch a feature on, in lower case.
pub open spec fn is_on_word(s: Seq<char>) -> bool {
    s == "1"@ || s == "true"@ || s == "yes"@ || s == "on"@ || s == "enabled"@
}

/// Whether a lower-case word switches a feature on.
pub fn switches_on(word: &str) -> (r: bool)
    ensures
        r == is_on_word(word@),
{
    text::same(word, "1") || text::same(word, "true") || text::same(word, "yes") || text::same(
        word,
        "on",
    ) || text::same(word, "enabled")
}

pub fn parse_bool_env(value: &str) -> (r: bool)
    ensures
        r == is_on_word(outside::unicode_lower(text::trim_of(value@))),
        vstd::utf8::is_ascii_chars(text::trim_of(value@)) ==> r == is_on_word(
            text::lower_of(text::trim_of(value@)),
        ),
{
    let t = text::trim(value);
    let word = outside::to_lowercase(t.as_str());
    switches_on(word.as_str())
}

pub fn public_bind_addr_from_port_env(port: &str) -> (r: String)
    ensures
        r@ == "0.0.0.0:"@ + text::trim_of(port@),
{
    let t = text::trim(port);
    text::cat2("0.0.0.0:", t.as_str())
}

/// The values of the environment variables that override configured values, where they are set.
#[derive(Debug)]
pub struct EnvOverrides {
    pub public_bind_addr: Option<String>,
    pub port: Option<String>,
    pub admin_bind_addr: Option<String>,
    pub admin_token: Option<String>,
    pub api_keys: Option<String>,
    pub upstream_base_url: Option<String>,
    pub log_level: Option<String>,
    pub telemetry_enabled: Option<String>,
    pub enrollment_enabled: Option<String>,
    pub enrollment_url: Option<String>,
    pub enrollment_token: Option<String>,
    pub installation_identifier: Option<String>,
    pub hostname: Option<String>,
    pub version: Option<String>,
    pub region: Option<String>,
    pub ingestion_url: Option<String>,
    pub api_key: Option<String>,
    pub firewall_instance_id: Option<String>,
}

/// `over` where it is set, else `base`.
pub open spec fn chosen(over: Option<String>, base: String) -> Seq<char> {
    match over {
        Some(v) => v@,
        None => base@,
    }
}

/// Whether `r` is `c` with the set values of `env` in place of its own.
pub open spec fn overridden(c: AppConfig, env: EnvOverrides, r: AppConfig) -> bool {
    &&& r.server.public_bind_addr@ == (if env.public_bind_addr is Some {
        env.public_bind_addr->0@
    } else if env.port is Some {
        "0.0.0.0:"@ + text::trim_of(env.port->0@)
    } else {
        c.server.public_bind_addr@
    })
    &&& r.server.admin_bind_addr@ == chosen(env.admin_bind_addr, c.server.admin_bind_addr)
    &&& r.server == (ServerConfig {
        public_bind_addr: r.server.public_bind_addr,
        admin_bind_addr: r.server.admin_bind_addr,
        ..c.server
    })
    &&& r.proxy.upstream_base_url@ == chosen(env.upstream_base_url, c.proxy.upstream_base_url)
    &&& r.proxy == (ProxyConfig { upstream_base_url: r.proxy.upstream_base_url, ..c.proxy })
    &&& r.security == c.security
    &&& r.telemetry.log_level@ == chosen(env.log_level, c.telemetry.log_level)
    &&& r.telemetry == (TelemetryConfig { log_level: r.telemetry.log_level, ..c.telemetry })
    &&& control_plane_overridden(c.control_plane, env, r.control_plane)
    &&& r.auth.admin.token@ == chosen(env.admin_token, c.auth.admin.token)
    &&& r.auth.api_keys.deep_view() == (match env.api_keys {
        Some(keys) => text::trimmed_fields_of(text::split_of(keys@, ',')),
        None => c.auth.api_keys.deep_view(),
    })
    &&& r.auth == (AuthConfig {
        api_keys: r.auth.api_keys,
        admin: AdminAuthConfig { token: r.auth.admin.token, ..c.auth.admin },
        ..c.auth
    })
    &&& r.storage == c.storage
    &&& r.spec == c.spec
    &&& r.jwt == c.jwt
    &&& r.behavior == c.behavior
    &&& r.response_security == c.response_security
    &&& r.discovery == c.discovery
}

pub open spec fn switched(over: Option<String>, base: bool) -> bool {
    match over {
        Some(v) => is_on_word(outside::unicode_lower(text::trim_of(v@))),
        None => base,
    }
}

pub open spec fn control_plane_overridden(
    c: ControlPlaneConfig,
    env: EnvOverrides,
    r: ControlPlaneConfig,
) -> bool {
    &&& r.telemetry_enabled == switched(env.telemetry_enabled, c.telemetry_enabled)
    &&& r.enrollment_enabled == switched(env.enrollment_enabled, c.enrollment_enabled)
    &&& r.enrollment_url@ == chosen(env.enrollment_url, c.enrollment_url)
    &&& r.enrollment_token@ == chosen(env.enrollment_token, c.enrollment_token)
    &&& r.installation_identifier@ == chosen(env.installation_identifier, c.installation_identifier)
    &&& r.hostname@ == chosen(env.hostname, c.hostname)
    &&& r.version@ == chosen(env.version, c.version)
    &&& r.region@ == chosen(env.region, c.region)
    &&& r.ingestion_url@ == chosen(env.ingestion_url, c.ingestion_url)
    &&& r.api_key@ == chosen(env.api_key, c.api_key)
    &&& r.firewall_instance_id@ == chosen(env.firewall_instance_id, c.firewall_instance_id)
    &&& r.request_timeout_ms == c.request_timeout_ms
    &&& r.queue_capacity == c.queue_capacity
}

fn choose_text(over: Option<String>, base: String) -> (r: String)
    ensures
        r@ == chosen(over, base),
        over is None ==> r == base,
{
    match over {
        Some(v) => v,
        None => base,
    }
}

fn choose_switch(over: &Option<String>, base: bool) -> (r: bool)
    ensures
        r == switched(*over, base),
{
    match over {
        Some(v) => parse_bool_env(v.as_str()),
        None => base,
    }
}

impl AppConfig {
    /// The configuration with the environment's overrides, where it is valid.
    pub fn load(config: AppConfig, env: EnvOverrides) -> (r: Result<AppConfig, ConfigError>)
        ensures
            match r {
                Ok(c) => overridden(config, env, c) && config_error(c) is None,
                Err(e) => exists|c: AppConfig| #[trigger]
                    overridden(config, env, c) && config_error(c) == Some(e),
            },
    {
        let public_bind_addr = match env.public_bind_addr {
            Some(addr) => addr,
            None => match env.port {
                Some(port) => public_bind_addr_from_port_env(port.as_str()),
                None => config.server.public_bind_addr,
            },
        };
        let api_keys = match env.api_keys {
            Some(keys) => text::trimmed_fields(keys.as_str(), ','),
            None => config.auth.api_keys,
        };
        let cp = config.control_plane;
        let control_plane = ControlPlaneConfig {
            telemetry_enabled: choose_switch(&env.telemetry_enabled, cp.telemetry_enabled),
            enrollment_enabled: choose_switch(&env.enrollment_enabled, cp.enrollment_enabled),
            enrollment_url: choose_text(env.enrollment_url, cp.enrollment_url),
            enrollment_token: choose_text(env.enrollment_token, cp.enrollment_token),
            installation_identifier: choose_text(
                env.installation_identifier,
                cp.installation_identifier,
            ),
            hostname: choose_text(env.hostname, cp.hostname),
            version: choose_text(env.version, cp.version),
            region: choose_text(env.region, cp.region),
            ingestion_url: choose_text(env.ingestion_url, cp.ingestion_url),
            api_key: choose_text(env.api_key, cp.api_key),
            firewall_instance_id: choose_text(env.firewall_instance_id, cp.firewall_instance_id),
            request_timeout_ms: cp.request_timeout_ms,
            queue_capacity: cp.queue_capacity,
        };
        let loaded = AppConfig {
            server: ServerConfig {
                public_bind_addr,
                admin_bind_addr: choose_text(env.admin_bind_addr, config.server.admin_bind_addr),
                trust_x_forwarded_for: config.server.trust_x_forwarded_for,
                environment: config.server.environment,
                admin_public_health_enabled: config.server.admin_public_health_enabled,
            },
            proxy: ProxyConfig {
                upstream_base_url: choose_text(
                    env.upstream_base_url,
                    config.proxy.upstream_base_url,
                ),
                connect_timeout_secs: config.proxy.connect_timeout_secs,
                request_timeout_secs: config.proxy.request_timeout_secs,
                pool_idle_timeout_secs: config.proxy.pool_idle_timeout_secs,
                max_body_bytes: config.proxy.max_body_bytes,
            },
            security: config.security,
            telemetry: TelemetryConfig {
                log_level: choose_text(env.log_level, config.telemetry.log_level),
                security_event_log_path: config.telemetry.security_event_log_path,
            },
            control_plane,
            auth: AuthConfig {
                enabled: config.auth.enabled,
                header_name: config.auth.header_name,
                api_keys,
                protected_path_prefixes: config.auth.protected_path_prefixes,
                admin: AdminAuthConfig {
                    enabled: config.auth.admin.enabled,
                    header_name: config.auth.admin.header_name,
                    token: choose_text(env.admin_token, config.auth.admin.token),
                },
            },
            storage: config.storage,
            spec: config.spec,
            jwt: config.jwt,
            behavior: config.behavior,
            response_security: config.response_security,
            discovery: config.discovery,
        };
        assert(overridden(config, env, loaded));
        loaded.validate()?;
        Ok(loaded)
    }
}

/// The verdict on a configuration depends only on the configured values and the environment.
pub proof fn law_load_verdict(c: AppConfig, env: EnvOverrides, a: AppConfig, b: AppConfig)
    requires
        overridden(c, env, a),
        overridden(c, env, b),
    ensures
        config_error(a) == config_error(b),
{
    assert(a.auth.api_keys@.len() == a.auth.api_keys.deep_view().len());
    assert(b.auth.api_keys@.len() == b.auth.api_keys.deep_view().len());
    assert forall|i: int| 0 <= i < a.auth.api_keys@.len() implies placeholder_secret(
        #[trigger] a.auth.api_keys@[i]@,
    ) == placeholder_secret(b.auth.api_keys@[i]@) by {
        assert(a.auth.api_keys.deep_view()[i] == b.auth.api_keys.deep_view()[i]);
    }
    assert forall|i: int| 0 <= i < b.auth.api_keys@.len() implies placeholder_secret(
        #[trigger] b.auth.api_keys@[i]@,
    ) == placeholder_secret(a.auth.api_keys@[i]@) by {
        assert(a.auth.api_keys.deep_view()[i] == b.auth.api_keys.deep_view()[i]);
    }
}

} // verus!
