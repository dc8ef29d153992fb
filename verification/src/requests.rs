//! What operators and analysts send to the administration interface.

use crate::config::{RuleMode, RuleModes};
use vstd::prelude::*;

verus! {

#[derive(Debug)]
pub struct EventSearchFilters {
    pub source_ip: Option<String>,
    pub rule_id: Option<String>,
    pub severity: Option<String>,
    pub method: Option<String>,
    pub path_contains: Option<String>,
    pub since: Option<String>,
    pub until: Option<String>,
    pub limit: Option<usize>,
    pub offset: Option<usize>,
}

#[derive(Debug)]
pub struct AuditSearchFilters {
    pub actor: Option<String>,
    pub action: Option<String>,
    pub target: Option<String>,
    pub since: Option<String>,
    pub until: Option<String>,
    pub limit: Option<usize>,
    pub offset: Option<usize>,
}

#[derive(Debug)]
pub struct ManualBlockRequest {
    pub source_ip: String,
    pub ttl_secs: Option<u64>,
    pub reason: Option<String>,
}

#[derive(Debug)]
pub struct SetGlobalRuleModeRequest {
    pub rule_id: String,
    pub mode: RuleMode,
}

#[derive(Debug)]
pub struct UpsertRouteOverrideRequest {
    pub path_prefix: String,
    pub rule_modes: RuleModes,
}

#[derive(Debug)]
pub struct DeleteRouteOverrideRequest {
    pub path_prefix: String,
}

#[derive(Debug)]
pub struct UpsertRouteRateLimitRequest {
    pub path_prefix: String,
    pub requests_per_window: u64,
    pub window_secs: u64,
}

#[derive(Debug)]
pub struct DeleteRouteRateLimitRequest {
    pub path_prefix: String,
}

#[derive(Debug)]
pub struct ApproveShadowRouteRequest {
    pub method: String,
    pub normalized_path: String,
    pub note: Option<String>,
}

#[derive(Debug)]
pub struct UpsertSourceAllowlistRequest {
    pub source_ip: String,
    pub reason: Option<String>,
}

#[derive(Debug)]
pub struct DeleteSourceAllowlistRequest {
    pub source_ip: String,
}

#[derive(Debug)]
pub struct UpsertPrincipalAllowlistRequest {
    pub principal_prefix: String,
    pub reason: Option<String>,
}

#[derive(Debug)]
pub struct DeletePrincipalAllowlistRequest {
    pub principal_prefix: String,
}

#[derive(Debug)]
pub struct PromoteToManagedSpecRequest {
    pub method: String,
    pub normalized_path: String,
    pub auth_required: bool,
    pub note: Option<String>,
}

#[derive(Debug)]
pub struct UpsertSuppressionRequest {
    pub rule_id: String,
    pub path_prefix: Option<String>,
    pub reason: Option<String>,
}

#[derive(Debug)]
pub struct DeleteSuppressionRequest {
    pub rule_id: String,
    pub path_prefix: Option<String>,
}

#[derive(Debug)]
pub struct PromoteShadowRouteRequest {
    pub method: String,
    pub normalized_path: String,
    pub note: Option<String>,
}

#[derive(Debug)]
pub struct UpsertRouteBehaviorOverrideRequest {
    pub path_prefix: String,
    pub warmup_min_samples: Option<u64>,
    pub object_enumeration_threshold: Option<usize>,
    pub object_window_secs: Option<u64>,
}

#[derive(Debug)]
pub struct DeleteRouteBehaviorOverrideRequest {
    pub path_prefix: String,
}

#[derive(Debug)]
pub struct UpsertTriScopedAllowlistRequest {
    pub source_ip: String,
    pub principal_prefix: String,
    pub path_prefix: String,
    pub reason: Option<String>,
}

#[derive(Debug)]
pub struct DeleteTriScopedAllowlistRequest {
    pub source_ip: String,
    pub principal_prefix: String,
    pub path_prefix: String,
}

#[derive(Debug)]
pub struct ApproveContractMismatchRequest {
    pub method: String,
    pub normalized_path: String,
    pub expected_status: u16,
    pub expected_content_type_prefix: String,
    pub required_headers: Vec<String>,
    pub note: Option<String>,
}

#[derive(Debug)]
pub struct UpsertScopedSourceAllowlistRequest {
    pub source_ip: String,
    pub path_prefix: String,
    pub reason: Option<String>,
}

#[derive(Debug)]
pub struct DeleteScopedSourceAllowlistRequest {
    pub source_ip: String,
    pub path_prefix: String,
}

#[derive(Debug)]
pub struct UpsertScopedPrincipalAllowlistRequest {
    pub principal_prefix: String,
    pub path_prefix: String,
    pub reason: Option<String>,
}

#[derive(Debug)]
pub struct DeleteScopedPrincipalAllowlistRequest {
    pub principal_prefix: String,
    pub path_prefix: String,
}

#[derive(Debug)]
pub struct UpsertResponseContractRequest {
    pub method: String,
    pub normalized_path: String,
    pub expected_status: u16,
    pub expected_content_type_prefix: String,
    pub required_headers: Vec<String>,
    pub note: Option<String>,
}

#[derive(Debug)]
pub struct DeleteResponseContractRequest {
    pub method: String,
    pub normalized_path: String,
}

#[derive(Debug)]
pub struct SavePolicyBundleRequest {
    pub note: Option<String>,
}

#[derive(Debug)]
pub struct RestorePolicyBundleRequest {
    pub bundle_id: String,
}

#[derive(Debug)]
pub struct AcknowledgeRestoreRefusalAlertRequest {
    pub alert_id: String,
}

#[derive(Debug)]
pub struct ResolveRestoreRefusalAlertRequest {
    pub alert_id: String,
}

#[derive(Debug)]
pub struct PolicyTimelineQuery {
    pub actor: Option<String>,
    pub action: Option<String>,
    pub target_contains: Option<String>,
    pub result: Option<String>,
    pub limit: Option<usize>,
    pub offset: Option<usize>,
    pub sort_dir: Option<String>,
}

#[derive(Debug)]
pub struct PromoteManagedSpecReleaseRequest {
    pub method: String,
    pub normalized_path: String,
    pub target_channel: String,
    pub note: Option<String>,
}

#[derive(Debug)]
pub struct PolicyTimelineFilters {
    pub actor: Option<String>,
    pub action: Option<String>,
    pub target_contains: Option<String>,
    pub result: Option<String>,
    pub limit: Option<usize>,
    pub offset: Option<usize>,
}

#[derive(Debug)]
pub struct UpsertManagedSpecReleaseStateRequest {
    pub method: String,
    pub normalized_path: String,
    pub channel: String,
    pub note: Option<String>,
}

#[derive(Debug)]
pub struct DeleteManagedSpecReleaseStateRequest {
    pub method: String,
    pub normalized_path: String,
}

#[derive(Debug)]
pub struct GatewayExportVariantRequest {
    pub variant: String,
}

#[derive(Debug)]
pub struct TamperPolicyBundleRequest {
    pub bundle_id: String,
    pub note: Option<String>,
}

#[derive(Debug)]
pub struct ApproveContractFromEventRequest {
    pub request_id: String,
    pub note: Option<String>,
}

#[derive(Debug)]
pub struct BehaviorBaselineQuery {
    pub limit: Option<usize>,
}

} // verus!
