//! What is kept in storage and handed out to operators and gateways.

use crate::text;
use crate::types::{
    LivePolicyExport, LivePolicyExportView, ManagedSpecRoute, ManagedSpecRouteView,
    ResponseContract, ResponseContractView, Timestamp,
};
use vstd::prelude::*;

verus! {

/// What an administrator did.
#[derive(Debug)]
pub struct AdminAudit {
    pub timestamp: Timestamp,
    pub actor: String,
    pub action: String,
    pub target: String,
    pub result: String,
    pub details: String,
}

#[verifier::ext_equal]
pub struct AdminAuditView {
    pub timestamp: Timestamp,
    pub actor: Seq<char>,
    pub action: Seq<char>,
    pub target: Seq<char>,
    pub result: Seq<char>,
    pub details: Seq<char>,
}

impl DeepView for AdminAudit {
    type V = AdminAuditView;

    open spec fn deep_view(&self) -> AdminAuditView {
        AdminAuditView {
            timestamp: self.timestamp,
            actor: self.actor@,
            action: self.action@,
            target: self.target@,
            result: self.result@,
            details: self.details@,
        }
    }
}

/// A source that is trusted.
#[derive(Debug)]
pub struct SourceAllowlistEntry {
    pub source_ip: String,
    pub created_at: Timestamp,
    pub created_by: String,
    pub reason: Option<String>,
}

#[verifier::ext_equal]
pub struct SourceAllowlistEntryView {
    pub source_ip: Seq<char>,
    pub created_at: Timestamp,
    pub created_by: Seq<char>,
    pub reason: Option<Seq<char>>,
}

impl DeepView for SourceAllowlistEntry {
    type V = SourceAllowlistEntryView;

    open spec fn deep_view(&self) -> SourceAllowlistEntryView {
        SourceAllowlistEntryView {
            source_ip: self.source_ip@,
            created_at: self.created_at,
            created_by: self.created_by@,
            reason: self.reason.deep_view(),
        }
    }
}

/// Principals that are trusted.
#[derive(Debug)]
pub struct PrincipalAllowlistEntry {
    pub principal_prefix: String,
    pub created_at: Timestamp,
    pub created_by: String,
    pub reason: Option<String>,
}

#[verifier::ext_equal]
pub struct PrincipalAllowlistEntryView {
    pub principal_prefix: Seq<char>,
    pub created_at: Timestamp,
    pub created_by: Seq<char>,
    pub reason: Option<Seq<char>>,
}

impl DeepView for PrincipalAllowlistEntry {
    type V = PrincipalAllowlistEntryView;

    open spec fn deep_view(&self) -> PrincipalAllowlistEntryView {
        PrincipalAllowlistEntryView {
            principal_prefix: self.principal_prefix@,
            created_at: self.created_at,
            created_by: self.created_by@,
            reason: self.reason.deep_view(),
        }
    }
}

/// A rule whose findings an analyst does not want to see.
#[derive(Debug)]
pub struct AnalystSuppression {
    pub rule_id: String,
    pub path_prefix: Option<String>,
    pub created_at: Timestamp,
    pub created_by: String,
    pub reason: Option<String>,
}

#[verifier::ext_equal]
pub struct AnalystSuppressionView {
    pub rule_id: Seq<char>,
    pub path_prefix: Option<Seq<char>>,
    pub created_at: Timestamp,
    pub created_by: Seq<char>,
    pub reason: Option<Seq<char>>,
}

impl DeepView for AnalystSuppression {
    type V = AnalystSuppressionView;

    open spec fn deep_view(&self) -> AnalystSuppressionView {
        AnalystSuppressionView {
            rule_id: self.rule_id@,
            path_prefix: self.path_prefix.deep_view(),
            created_at: self.created_at,
            created_by: self.created_by@,
            reason: self.reason.deep_view(),
        }
    }
}

/// Principals that are trusted on some paths when they come from one source.
#[derive(Debug)]
pub struct TriScopedAllowlistEntry {
    pub source_ip: String,
    pub principal_prefix: String,
    pub path_prefix: String,
    pub created_at: Timestamp,
    pub created_by: String,
    pub reason: Option<String>,
}

#[verifier::ext_equal]
pub struct TriScopedAllowlistEntryView {
    pub source_ip: Seq<char>,
    pub principal_prefix: Seq<char>,
    pub path_prefix: Seq<char>,
    pub created_at: Timestamp,
    pub created_by: Seq<char>,
    pub reason: Option<Seq<char>>,
}

impl DeepView for TriScopedAllowlistEntry {
    type V = TriScopedAllowlistEntryView;

    open spec fn deep_view(&self) -> TriScopedAllowlistEntryView {
        TriScopedAllowlistEntryView {
            source_ip: self.source_ip@,
            principal_prefix: self.principal_prefix@,
            path_prefix: self.path_prefix@,
            created_at: self.created_at,
            created_by: self.created_by@,
            reason: self.reason.deep_view(),
        }
    }
}

/// A source that is trusted on some paths.
#[derive(Debug)]
pub struct ScopedSourceAllowlistEntry {
    pub source_ip: String,
    pub path_prefix: String,
    pub created_at: Timestamp,
    pub created_by: String,
    pub reason: Option<String>,
}

#[verifier::ext_equal]
pub struct ScopedSourceAllowlistEntryView {
    pub source_ip: Seq<char>,
    pub path_prefix: Seq<char>,
    pub created_at: Timestamp,
    pub created_by: Seq<char>,
    pub reason: Option<Seq<char>>,
}

impl DeepView for ScopedSourceAllowlistEntry {
    type V = ScopedSourceAllowlistEntryView;

    open spec fn deep_view(&self) -> ScopedSourceAllowlistEntryView {
        ScopedSourceAllowlistEntryView {
            source_ip: self.source_ip@,
            path_prefix: self.path_prefix@,
            created_at: self.created_at,
            created_by: self.created_by@,
            reason: self.reason.deep_view(),
        }
    }
}

/// Principals that are trusted on some paths.
#[derive(Debug)]
pub struct ScopedPrincipalAllowlistEntry {
    pub principal_prefix: String,
    pub path_prefix: String,
    pub created_at: Timestamp,
    pub created_by: String,
    pub reason: Option<String>,
}

#[verifier::ext_equal]
pub struct ScopedPrincipalAllowlistEntryView {
    pub principal_prefix: Seq<char>,
    pub path_prefix: Seq<char>,
    pub created_at: Timestamp,
    pub created_by: Seq<char>,
    pub reason: Option<Seq<char>>,
}

impl DeepView for ScopedPrincipalAllowlistEntry {
    type V = ScopedPrincipalAllowlistEntryView;

    open spec fn deep_view(&self) -> ScopedPrincipalAllowlistEntryView {
        ScopedPrincipalAllowlistEntryView {
            principal_prefix: self.principal_prefix@,
            path_prefix: self.path_prefix@,
            created_at: self.created_at,
            created_by: self.created_by@,
            reason: self.reason.deep_view(),
        }
    }
}

/// A saved policy with its digest.
#[derive(Debug)]
pub struct PolicyBundle {
    pub bundle_id: String,
    pub created_at: Timestamp,
    pub created_by: String,
    pub note: Option<String>,
    pub digest_sha256: String,
    pub live_policy: LivePolicyExport,
}

#[verifier::ext_equal]
pub struct PolicyBundleView {
    pub bundle_id: Seq<char>,
    pub created_at: Timestamp,
    pub created_by: Seq<char>,
    pub note: Option<Seq<char>>,
    pub digest_sha256: Seq<char>,
    pub live_policy: LivePolicyExportView,
}

impl DeepView for PolicyBundle {
    type V = PolicyBundleView;

    open spec fn deep_view(&self) -> PolicyBundleView {
        PolicyBundleView {
            bundle_id: self.bundle_id@,
            created_at: self.created_at,
            created_by: self.created_by@,
            note: self.note.deep_view(),
            digest_sha256: self.digest_sha256@,
            live_policy: self.live_policy.deep_view(),
        }
    }
}

/// A policy that was handed over with its digest.
#[derive(Debug)]
pub struct SignedPolicyBundle {
    pub bundle_id: String,
    pub created_at: Timestamp,
    pub created_by: String,
    pub note: Option<String>,
    pub digest_sha256: String,
    pub live_policy: LivePolicyExport,
}

#[verifier::ext_equal]
pub struct SignedPolicyBundleView {
    pub bundle_id: Seq<char>,
    pub created_at: Timestamp,
    pub created_by: Seq<char>,
    pub note: Option<Seq<char>>,
    pub digest_sha256: Seq<char>,
    pub live_policy: LivePolicyExportView,
}

impl DeepView for SignedPolicyBundle {
    type V = SignedPolicyBundleView;

    open spec fn deep_view(&self) -> SignedPolicyBundleView {
        SignedPolicyBundleView {
            bundle_id: self.bundle_id@,
            created_at: self.created_at,
            created_by: self.created_by@,
            note: self.note.deep_view(),
            digest_sha256: self.digest_sha256@,
            live_policy: self.live_policy.deep_view(),
        }
    }
}

/// Whether a saved policy is what it was when it was saved, and whether it is in force.
#[derive(Debug)]
pub struct PolicyBundleVerificationResult {
    pub bundle_id: String,
    pub verified_at: Timestamp,
    pub stored_digest_sha256: String,
    pub recomputed_digest_sha256: String,
    pub digest_match: bool,
    pub live_policy_digest_sha256: String,
    pub matches_live_policy: bool,
}

#[verifier::ext_equal]
pub struct PolicyBundleVerificationResultView {
    pub bundle_id: Seq<char>,
    pub verified_at: Timestamp,
    pub stored_digest_sha256: Seq<char>,
    pub recomputed_digest_sha256: Seq<char>,
    pub digest_match: bool,
    pub live_policy_digest_sha256: Seq<char>,
    pub matches_live_policy: bool,
}

impl DeepView for PolicyBundleVerificationResult {
    type V = PolicyBundleVerificationResultView;

    open spec fn deep_view(&self) -> PolicyBundleVerificationResultView {
        PolicyBundleVerificationResultView {
            bundle_id: self.bundle_id@,
            verified_at: self.verified_at,
            stored_digest_sha256: self.stored_digest_sha256@,
            recomputed_digest_sha256: self.recomputed_digest_sha256@,
            digest_match: self.digest_match,
            live_policy_digest_sha256: self.live_policy_digest_sha256@,
            matches_live_policy: self.matches_live_policy,
        }
    }
}

/// Which parts of the policy in force differ from a saved one.
#[derive(Debug)]
pub struct PolicyDiffResult {
    pub compared_at: Timestamp,
    pub bundle_id: Option<String>,
    pub has_changes: bool,
    pub policy_mode_changed: bool,
    pub global_rule_modes_changed: bool,
    pub route_overrides_changed: bool,
    pub route_rate_limits_changed: bool,
    pub route_behavior_overrides_changed: bool,
    pub detector_exceptions_changed: bool,
}

#[verifier::ext_equal]
pub struct PolicyDiffResultView {
    pub compared_at: Timestamp,
    pub bundle_id: Option<Seq<char>>,
    pub has_changes: bool,
    pub policy_mode_changed: bool,
    pub global_rule_modes_changed: bool,
    pub route_overrides_changed: bool,
    pub route_rate_limits_changed: bool,
    pub route_behavior_overrides_changed: bool,
    pub detector_exceptions_changed: bool,
}

impl DeepView for PolicyDiffResult {
    type V = PolicyDiffResultView;

    open spec fn deep_view(&self) -> PolicyDiffResultView {
        PolicyDiffResultView {
            compared_at: self.compared_at,
            bundle_id: self.bundle_id.deep_view(),
            has_changes: self.has_changes,
            policy_mode_changed: self.policy_mode_changed,
            global_rule_modes_changed: self.global_rule_modes_changed,
            route_overrides_changed: self.route_overrides_changed,
            route_rate_limits_changed: self.route_rate_limits_changed,
            route_behavior_overrides_changed: self.route_behavior_overrides_changed,
            detector_exceptions_changed: self.detector_exceptions_changed,
        }
    }
}

#[derive(Debug)]
pub struct RestoreRefusalEscalationRule {
    pub bundle_id: String,
    pub refusal_count: usize,
    pub severity: String,
    pub latest_timestamp: Timestamp,
}

#[verifier::ext_equal]
pub struct RestoreRefusalEscalationRuleView {
    pub bundle_id: Seq<char>,
    pub refusal_count: usize,
    pub severity: Seq<char>,
    pub latest_timestamp: Timestamp,
}

impl DeepView for RestoreRefusalEscalationRule {
    type V = RestoreRefusalEscalationRuleView;

    open spec fn deep_view(&self) -> RestoreRefusalEscalationRuleView {
        RestoreRefusalEscalationRuleView {
            bundle_id: self.bundle_id@,
            refusal_count: self.refusal_count,
            severity: self.severity@,
            latest_timestamp: self.latest_timestamp,
        }
    }
}

/// A saved policy was changed and could not be restored.
#[derive(Debug)]
pub struct RestoreRefusalAlert {
    pub alert_id: String,
    pub created_at: Timestamp,
    pub bundle_id: String,
    pub severity: String,
    pub status: String,
    pub reason: String,
    pub stored_digest_sha256: String,
    pub recomputed_digest_sha256: String,
    pub latest_actor: String,
}

#[verifier::ext_equal]
pub struct RestoreRefusalAlertView {
    pub alert_id: Seq<char>,
    pub created_at: Timestamp,
    pub bundle_id: Seq<char>,
    pub severity: Seq<char>,
    pub status: Seq<char>,
    pub reason: Seq<char>,
    pub stored_digest_sha256: Seq<char>,
    pub recomputed_digest_sha256: Seq<char>,
    pub latest_actor: Seq<char>,
}

impl DeepView for RestoreRefusalAlert {
    type V = RestoreRefusalAlertView;

    open spec fn deep_view(&self) -> RestoreRefusalAlertView {
        RestoreRefusalAlertView {
            alert_id: self.alert_id@,
            created_at: self.created_at,
            bundle_id: self.bundle_id@,
            severity: self.severity@,
            status: self.status@,
            reason: self.reason@,
            stored_digest_sha256: self.stored_digest_sha256@,
            recomputed_digest_sha256: self.recomputed_digest_sha256@,
            latest_actor: self.latest_actor@,
        }
    }
}

/// One refused attempt to restore a saved policy.
#[derive(Debug)]
pub struct RestoreRefusalEvent {
    pub timestamp: Timestamp,
    pub actor: String,
    pub bundle_id: String,
    pub reason: String,
    pub stored_digest_sha256: String,
    pub recomputed_digest_sha256: String,
}

#[verifier::ext_equal]
pub struct RestoreRefusalEventView {
    pub timestamp: Timestamp,
    pub actor: Seq<char>,
    pub bundle_id: Seq<char>,
    pub reason: Seq<char>,
    pub stored_digest_sha256: Seq<char>,
    pub recomputed_digest_sha256: Seq<char>,
}

impl DeepView for RestoreRefusalEvent {
    type V = RestoreRefusalEventView;

    open spec fn deep_view(&self) -> RestoreRefusalEventView {
        RestoreRefusalEventView {
            timestamp: self.timestamp,
            actor: self.actor@,
            bundle_id: self.bundle_id@,
            reason: self.reason@,
            stored_digest_sha256: self.stored_digest_sha256@,
            recomputed_digest_sha256: self.recomputed_digest_sha256@,
        }
    }
}

/// How far a managed route has come on its way to release.
#[derive(Debug)]
pub struct ManagedSpecReleaseState {
    pub method: String,
    pub normalized_path: String,
    pub channel: String,
    pub updated_at: Timestamp,
    pub updated_by: String,
    pub note: Option<String>,
}

#[verifier::ext_equal]
pub struct ManagedSpecReleaseStateView {
    pub method: Seq<char>,
    pub normalized_path: Seq<char>,
    pub channel: Seq<char>,
    pub updated_at: Timestamp,
    pub updated_by: Seq<char>,
    pub note: Option<Seq<char>>,
}

impl DeepView for ManagedSpecReleaseState {
    type V = ManagedSpecReleaseStateView;

    open spec fn deep_view(&self) -> ManagedSpecReleaseStateView {
        ManagedSpecReleaseStateView {
            method: self.method@,
            normalized_path: self.normalized_path@,
            channel: self.channel@,
            updated_at: self.updated_at,
            updated_by: self.updated_by@,
            note: self.note.deep_view(),
        }
    }
}

impl Clone for ManagedSpecReleaseState {
    fn clone(&self) -> (r: Self)
        ensures
            r == *self,
    {
        ManagedSpecReleaseState {
            method: self.method.clone(),
            normalized_path: self.normalized_path.clone(),
            channel: self.channel.clone(),
            updated_at: self.updated_at,
            updated_by: self.updated_by.clone(),
            note: text::clone_option(&self.note),
        }
    }
}

/// Whether a route may be moved to a release channel.
#[derive(Debug)]
pub struct ReleaseGuardResult {
    pub method: String,
    pub normalized_path: String,
    pub allowed: bool,
    pub reasons: Vec<String>,
}

#[verifier::ext_equal]
pub struct ReleaseGuardResultView {
    pub method: Seq<char>,
    pub normalized_path: Seq<char>,
    pub allowed: bool,
    pub reasons: Seq<Seq<char>>,
}

impl DeepView for ReleaseGuardResult {
    type V = ReleaseGuardResultView;

    open spec fn deep_view(&self) -> ReleaseGuardResultView {
        ReleaseGuardResultView {
            method: self.method@,
            normalized_path: self.normalized_path@,
            allowed: self.allowed,
            reasons: self.reasons.deep_view(),
        }
    }
}

/// One step in the history of the policy.
#[derive(Debug)]
pub struct PolicyTimelineEntry {
    pub timestamp: Timestamp,
    pub actor: String,
    pub action: String,
    pub target: String,
    pub result: String,
    pub details: String,
}

#[verifier::ext_equal]
pub struct PolicyTimelineEntryView {
    pub timestamp: Timestamp,
    pub actor: Seq<char>,
    pub action: Seq<char>,
    pub target: Seq<char>,
    pub result: Seq<char>,
    pub details: Seq<char>,
}

impl DeepView for PolicyTimelineEntry {
    type V = PolicyTimelineEntryView;

    open spec fn deep_view(&self) -> PolicyTimelineEntryView {
        PolicyTimelineEntryView {
            timestamp: self.timestamp,
            actor: self.actor@,
            action: self.action@,
            target: self.target@,
            result: self.result@,
            details: self.details@,
        }
    }
}

/// A part of the history of the policy.
#[derive(Debug)]
pub struct PolicyTimelinePage {
    pub items: Vec<PolicyTimelineEntry>,
    pub total: usize,
    pub limit: usize,
    pub offset: usize,
    pub sort_dir: String,
}

#[verifier::ext_equal]
pub struct PolicyTimelinePageView {
    pub items: Seq<PolicyTimelineEntryView>,
    pub total: usize,
    pub limit: usize,
    pub offset: usize,
    pub sort_dir: Seq<char>,
}

impl DeepView for PolicyTimelinePage {
    type V = PolicyTimelinePageView;

    open spec fn deep_view(&self) -> PolicyTimelinePageView {
        PolicyTimelinePageView {
            items: self.items.deep_view(),
            total: self.total,
            limit: self.limit,
            offset: self.offset,
            sort_dir: self.sort_dir@,
        }
    }
}

/// A response contract that the observed mismatches speak for.
#[derive(Debug)]
pub struct ContractRecommendation {
    pub method: String,
    pub normalized_path: String,
    pub recommended_status: u16,
    pub recommended_content_type_prefix: String,
    pub recommended_required_headers: Vec<String>,
    pub supporting_events: usize,
}

#[verifier::ext_equal]
pub struct ContractRecommendationView {
    pub method: Seq<char>,
    pub normalized_path: Seq<char>,
    pub recommended_status: u16,
    pub recommended_content_type_prefix: Seq<char>,
    pub recommended_required_headers: Seq<Seq<char>>,
    pub supporting_events: usize,
}

impl DeepView for ContractRecommendation {
    type V = ContractRecommendationView;

    open spec fn deep_view(&self) -> ContractRecommendationView {
        ContractRecommendationView {
            method: self.method@,
            normalized_path: self.normalized_path@,
            recommended_status: self.recommended_status,
            recommended_content_type_prefix: self.recommended_content_type_prefix@,
            recommended_required_headers: self.recommended_required_headers.deep_view(),
            supporting_events: self.supporting_events,
        }
    }
}

#[derive(Debug)]
pub struct ContractRecommendationSet {
    pub generated_at: Timestamp,
    pub items: Vec<ContractRecommendation>,
}

#[verifier::ext_equal]
pub struct ContractRecommendationSetView {
    pub generated_at: Timestamp,
    pub items: Seq<ContractRecommendationView>,
}

impl DeepView for ContractRecommendationSet {
    type V = ContractRecommendationSetView;

    open spec fn deep_view(&self) -> ContractRecommendationSetView {
        ContractRecommendationSetView {
            generated_at: self.generated_at,
            items: self.items.deep_view(),
        }
    }
}

#[derive(Debug)]
pub struct ManagedSpecExport {
    pub exported_at: Timestamp,
    pub managed_spec_routes: Vec<ManagedSpecRoute>,
    pub response_contracts: Vec<ResponseContract>,
}

#[verifier::ext_equal]
pub struct ManagedSpecExportView {
    pub exported_at: Timestamp,
    pub managed_spec_routes: Seq<ManagedSpecRouteView>,
    pub response_contracts: Seq<ResponseContractView>,
}

impl DeepView for ManagedSpecExport {
    type V = ManagedSpecExportView;

    open spec fn deep_view(&self) -> ManagedSpecExportView {
        ManagedSpecExportView {
            exported_at: self.exported_at,
            managed_spec_routes: self.managed_spec_routes.deep_view(),
            response_contracts: self.response_contracts.deep_view(),
        }
    }
}

#[derive(Debug)]
pub struct EnforcementResponseContract {
    pub expected_status: u16,
    pub expected_content_type_prefix: String,
    pub required_headers: Vec<String>,
}

#[verifier::ext_equal]
pub struct EnforcementResponseContractView {
    pub expected_status: u16,
    pub expected_content_type_prefix: Seq<char>,
    pub required_headers: Seq<Seq<char>>,
}

impl DeepView for EnforcementResponseContract {
    type V = EnforcementResponseContractView;

    open spec fn deep_view(&self) -> EnforcementResponseContractView {
        EnforcementResponseContractView {
            expected_status: self.expected_status,
            expected_content_type_prefix: self.expected_content_type_prefix@,
            required_headers: self.required_headers.deep_view(),
        }
    }
}

#[derive(Debug)]
pub struct EnforcementManagedRoute {
    pub method: String,
    pub normalized_path: String,
    pub auth_required: bool,
    pub expected_response: Option<EnforcementResponseContract>,
}

#[verifier::ext_equal]
pub struct EnforcementManagedRouteView {
    pub method: Seq<char>,
    pub normalized_path: Seq<char>,
    pub auth_required: bool,
    pub expected_response: Option<EnforcementResponseContractView>,
}

impl DeepView for EnforcementManagedRoute {
    type V = EnforcementManagedRouteView;

    open spec fn deep_view(&self) -> EnforcementManagedRouteView {
        EnforcementManagedRouteView {
            method: self.method@,
            normalized_path: self.normalized_path@,
            auth_required: self.auth_required,
            expected_response: self.expected_response.deep_view(),
        }
    }
}

#[derive(Debug)]
pub struct EnforcementManagedSpecExport {
    pub exported_at: Timestamp,
    pub version: String,
    pub routes: Vec<EnforcementManagedRoute>,
}

#[verifier::ext_equal]
pub struct EnforcementManagedSpecExportView {
    pub exported_at: Timestamp,
    pub version: Seq<char>,
    pub routes: Seq<EnforcementManagedRouteView>,
}

impl DeepView for EnforcementManagedSpecExport {
    type V = EnforcementManagedSpecExportView;

    open spec fn deep_view(&self) -> EnforcementManagedSpecExportView {
        EnforcementManagedSpecExportView {
            exported_at: self.exported_at,
            version: self.version@,
            routes: self.routes.deep_view(),
        }
    }
}

#[derive(Debug)]
pub struct KongServiceExport {
    pub name: String,
    pub method: String,
    pub path: String,
    pub auth_required: bool,
    pub required_headers: Vec<String>,
    pub release_channel: Option<String>,
}

#[verifier::ext_equal]
pub struct KongServiceExportView {
    pub name: Seq<char>,
    pub method: Seq<char>,
    pub path: Seq<char>,
    pub auth_required: bool,
    pub required_headers: Seq<Seq<char>>,
    pub release_channel: Option<Seq<char>>,
}

impl DeepView for KongServiceExport {
    type V = KongServiceExportView;

    open spec fn deep_view(&self) -> KongServiceExportView {
        KongServiceExportView {
            name: self.name@,
            method: self.method@,
            path: self.path@,
            auth_required: self.auth_required,
            required_headers: self.required_headers.deep_view(),
            release_channel: self.release_channel.deep_view(),
        }
    }
}

#[derive(Debug)]
pub struct KongRouteExport {
    pub exported_at: Timestamp,
    pub schema_version: String,
    pub services: Vec<KongServiceExport>,
}

#[verifier::ext_equal]
pub struct KongRouteExportView {
    pub exported_at: Timestamp,
    pub schema_version: Seq<char>,
    pub services: Seq<KongServiceExportView>,
}

impl DeepView for KongRouteExport {
    type V = KongRouteExportView;

    open spec fn deep_view(&self) -> KongRouteExportView {
        KongRouteExportView {
            exported_at: self.exported_at,
            schema_version: self.schema_version@,
            services: self.services.deep_view(),
        }
    }
}

#[derive(Debug)]
pub struct EnvoyRouteRecord {
    pub match_path: String,
    pub method: String,
    pub auth_required: bool,
    pub release_channel: Option<String>,
}

#[verifier::ext_equal]
pub struct EnvoyRouteRecordView {
    pub match_path: Seq<char>,
    pub method: Seq<char>,
    pub auth_required: bool,
    pub release_channel: Option<Seq<char>>,
}

impl DeepView for EnvoyRouteRecord {
    type V = EnvoyRouteRecordView;

    open spec fn deep_view(&self) -> EnvoyRouteRecordView {
        EnvoyRouteRecordView {
            match_path: self.match_path@,
            method: self.method@,
            auth_required: self.auth_required,
            release_channel: self.release_channel.deep_view(),
        }
    }
}

#[derive(Debug)]
pub struct EnvoyRouteExport {
    pub exported_at: Timestamp,
    pub schema_version: String,
    pub routes: Vec<EnvoyRouteRecord>,
}

#[verifier::ext_equal]
pub struct EnvoyRouteExportView {
    pub exported_at: Timestamp,
    pub schema_version: Seq<char>,
    pub routes: Seq<EnvoyRouteRecordView>,
}

impl DeepView for EnvoyRouteExport {
    type V = EnvoyRouteExportView;

    open spec fn deep_view(&self) -> EnvoyRouteExportView {
        EnvoyRouteExportView {
            exported_at: self.exported_at,
            schema_version: self.schema_version@,
            routes: self.routes.deep_view(),
        }
    }
}

#[derive(Debug)]
pub struct ApiGatewayPolicyRoute {
    pub method: String,
    pub path: String,
    pub auth_required: bool,
    pub required_headers: Vec<String>,
    pub release_channel: Option<String>,
}

#[verifier::ext_equal]
pub struct ApiGatewayPolicyRouteView {
    pub method: Seq<char>,
    pub path: Seq<char>,
    pub auth_required: bool,
    pub required_headers: Seq<Seq<char>>,
    pub release_channel: Option<Seq<char>>,
}

impl DeepView for ApiGatewayPolicyRoute {
    type V = ApiGatewayPolicyRouteView;

    open spec fn deep_view(&self) -> ApiGatewayPolicyRouteView {
        ApiGatewayPolicyRouteView {
            method: self.method@,
            path: self.path@,
            auth_required: self.auth_required,
            required_headers: self.required_headers.deep_view(),
            release_channel: self.release_channel.deep_view(),
        }
    }
}

#[derive(Debug)]
pub struct ApiGatewayPolicyExport {
    pub exported_at: Timestamp,
    pub schema_version: String,
    pub routes: Vec<ApiGatewayPolicyRoute>,
}

#[verifier::ext_equal]
pub struct ApiGatewayPolicyExportView {
    pub exported_at: Timestamp,
    pub schema_version: Seq<char>,
    pub routes: Seq<ApiGatewayPolicyRouteView>,
}

impl DeepView for ApiGatewayPolicyExport {
    type V = ApiGatewayPolicyExportView;

    open spec fn deep_view(&self) -> ApiGatewayPolicyExportView {
        ApiGatewayPolicyExportView {
            exported_at: self.exported_at,
            schema_version: self.schema_version@,
            routes: self.routes.deep_view(),
        }
    }
}

#[derive(Debug)]
pub struct ExportManifest {
    pub exported_at: Timestamp,
    pub managed_routes: usize,
    pub response_contracts: usize,
    pub release_state_records: usize,
    pub policy_bundles: usize,
}

#[verifier::ext_equal]
pub struct ExportManifestView {
    pub exported_at: Timestamp,
    pub managed_routes: usize,
    pub response_contracts: usize,
    pub release_state_records: usize,
    pub policy_bundles: usize,
}

impl DeepView for ExportManifest {
    type V = ExportManifestView;

    open spec fn deep_view(&self) -> ExportManifestView {
        ExportManifestView {
            exported_at: self.exported_at,
            managed_routes: self.managed_routes,
            response_contracts: self.response_contracts,
            release_state_records: self.release_state_records,
            policy_bundles: self.policy_bundles,
        }
    }
}

#[derive(Debug)]
pub struct GatewayRoutingOnlyRoute {
    pub method: String,
    pub path: String,
    pub auth_required: bool,
}

#[verifier::ext_equal]
pub struct GatewayRoutingOnlyRouteView {
    pub method: Seq<char>,
    pub path: Seq<char>,
    pub auth_required: bool,
}

impl DeepView for GatewayRoutingOnlyRoute {
    type V = GatewayRoutingOnlyRouteView;

    open spec fn deep_view(&self) -> GatewayRoutingOnlyRouteView {
        GatewayRoutingOnlyRouteView {
            method: self.method@,
            path: self.path@,
            auth_required: self.auth_required,
        }
    }
}

#[derive(Debug)]
pub struct GatewayRoutingOnlyExport {
    pub exported_at: Timestamp,
    pub schema_version: String,
    pub routes: Vec<GatewayRoutingOnlyRoute>,
}

#[verifier::ext_equal]
pub struct GatewayRoutingOnlyExportView {
    pub exported_at: Timestamp,
    pub schema_version: Seq<char>,
    pub routes: Seq<GatewayRoutingOnlyRouteView>,
}

impl DeepView for GatewayRoutingOnlyExport {
    type V = GatewayRoutingOnlyExportView;

    open spec fn deep_view(&self) -> GatewayRoutingOnlyExportView {
        GatewayRoutingOnlyExportView {
            exported_at: self.exported_at,
            schema_version: self.schema_version@,
            routes: self.routes.deep_view(),
        }
    }
}

#[derive(Debug)]
pub struct GatewayEnforcementRoute {
    pub method: String,
    pub path: String,
    pub auth_required: bool,
    pub expected_status: Option<u16>,
    pub expected_content_type_prefix: Option<String>,
    pub required_headers: Vec<String>,
    pub release_channel: Option<String>,
}

#[verifier::ext_equal]
pub struct GatewayEnforcementRouteView {
    pub method: Seq<char>,
    pub path: Seq<char>,
    pub auth_required: bool,
    pub expected_status: Option<u16>,
    pub expected_content_type_prefix: Option<Seq<char>>,
    pub required_headers: Seq<Seq<char>>,
    pub release_channel: Option<Seq<char>>,
}

impl DeepView for GatewayEnforcementRoute {
    type V = GatewayEnforcementRouteView;

    open spec fn deep_view(&self) -> GatewayEnforcementRouteView {
        GatewayEnforcementRouteView {
            method: self.method@,
            path: self.path@,
            auth_required: self.auth_required,
            expected_status: self.expected_status,
            expected_content_type_prefix: self.expected_content_type_prefix.deep_view(),
            required_headers: self.required_headers.deep_view(),
            release_channel: self.release_channel.deep_view(),
        }
    }
}

#[derive(Debug)]
pub struct GatewayEnforcementExport {
    pub exported_at: Timestamp,
    pub schema_version: String,
    pub routes: Vec<GatewayEnforcementRoute>,
}

#[verifier::ext_equal]
pub struct GatewayEnforcementExportView {
    pub exported_at: Timestamp,
    pub schema_version: Seq<char>,
    pub routes: Seq<GatewayEnforcementRouteView>,
}

impl DeepView for GatewayEnforcementExport {
    type V = GatewayEnforcementExportView;

    open spec fn deep_view(&self) -> GatewayEnforcementExportView {
        GatewayEnforcementExportView {
            exported_at: self.exported_at,
            schema_version: self.schema_version@,
            routes: self.routes.deep_view(),
        }
    }
}

#[derive(Debug)]
pub struct GatewayRoutePolicyExport {
    pub method: String,
    pub path: String,
    pub auth_required: bool,
    pub expected_status: Option<u16>,
    pub expected_content_type_prefix: Option<String>,
    pub required_headers: Vec<String>,
}

#[verifier::ext_equal]
pub struct GatewayRoutePolicyExportView {
    pub method: Seq<char>,
    pub path: Seq<char>,
    pub auth_required: bool,
    pub expected_status: Option<u16>,
    pub expected_content_type_prefix: Option<Seq<char>>,
    pub required_headers: Seq<Seq<char>>,
}

impl DeepView for GatewayRoutePolicyExport {
    type V = GatewayRoutePolicyExportView;

    open spec fn deep_view(&self) -> GatewayRoutePolicyExportView {
        GatewayRoutePolicyExportView {
            method: self.method@,
            path: self.path@,
            auth_required: self.auth_required,
            expected_status: self.expected_status,
            expected_content_type_prefix: self.expected_content_type_prefix.deep_view(),
            required_headers: self.required_headers.deep_view(),
        }
    }
}

#[derive(Debug)]
pub struct GatewayManagedSpecExport {
    pub exported_at: Timestamp,
    pub schema_version: String,
    pub routes: Vec<GatewayRoutePolicyExport>,
}

#[verifier::ext_equal]
pub struct GatewayManagedSpecExportView {
    pub exported_at: Timestamp,
    pub schema_version: Seq<char>,
    pub routes: Seq<GatewayRoutePolicyExportView>,
}

impl DeepView for GatewayManagedSpecExport {
    type V = GatewayManagedSpecExportView;

    open spec fn deep_view(&self) -> GatewayManagedSpecExportView {
        GatewayManagedSpecExportView {
            exported_at: self.exported_at,
            schema_version: self.schema_version@,
            routes: self.routes.deep_view(),
        }
    }
}

} // verus!
