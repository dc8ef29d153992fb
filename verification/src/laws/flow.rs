//! How the parts of a request's way fit together.

use crate::access;
use crate::access::Allowlists;
use crate::behavior;
use crate::behavior::{BehaviorReading, BehaviorSampleView};
use crate::bundles;
use crate::config;
use crate::config::{AppConfig, ConfigError, ControlPlaneConfig, RouteSensitivity};
use crate::control_plane;
use crate::enrollment;
use crate::enrollment::EnrollmentError;
use crate::headers;
use crate::headers::Headers;
use crate::identity;
use crate::inventory;
use crate::json;
use crate::laws::declared;
use crate::mitigation;
use crate::outside;
use crate::proxy;
use crate::rate_limit;
use crate::rate_limit::BehaviorBaselineSnapshotView;
use crate::requests::{AuditSearchFilters, EventSearchFilters};
use crate::routes;
use crate::storage;
use crate::store::{ActiveMitigationView, BehaviorStateView, RecordView};
use crate::telemetry_delivery;
use crate::text;
use crate::types;
use crate::types::{
    ApprovedShadowRoute, EnrichedRequestContext, Finding, FindingView, LearnedRouteView,
    LivePolicyState, ManagedSpecRoute, MitigationAction, OperatorActionKind, PrincipalKeyView,
    PromotedSpecRoute, RecommendationView, RequestContext, Timestamp,
};
use crate::validation;
use vstd::prelude::*;

verus! {

/// What is decided on holds everything that was found: by the inspection, by the counts and among
/// the routes that no one declared.
pub proof fn law_everything_is_weighed(
    config: AppConfig,
    policy: LivePolicyState,
    known: Seq<LearnedRouteView>,
    context: RequestContext,
    inspected: Seq<FindingView>,
    evaluated: Seq<FindingView>,
    f: FindingView,
)
    ensures
        ({
            let all = proxy::all_request_findings(
                config,
                policy,
                known,
                context,
                inspected,
                evaluated,
            );
            let shadow = proxy::shadow_findings(config, policy, known, context);
            &&& all.contains(f) <==> inspected.contains(f) || evaluated.contains(f)
                || shadow.contains(f)
            &&& all.len() == inspected.len() + evaluated.len() + shadow.len()
        }),
{
    let shadow = proxy::shadow_findings(config, policy, known, context);
    lemma_joined(inspected, evaluated, f);
    lemma_joined(inspected + evaluated, shadow, f);
}

proof fn lemma_joined<A>(a: Seq<A>, b: Seq<A>, x: A)
    ensures
        (a + b).contains(x) <==> a.contains(x) || b.contains(x),
{
    let all = a + b;
    if a.contains(x) {
        let i = choose|i: int| 0 <= i < a.len() && a[i] == x;
        assert(all[i] == x);
    }
    if b.contains(x) {
        let i = choose|i: int| 0 <= i < b.len() && b[i] == x;
        assert(all[a.len() + i] == x);
    }
    if all.contains(x) {
        let i = choose|i: int| 0 <= i < all.len() && all[i] == x;
        if i < a.len() {
            assert(a[i] == x);
        } else {
            assert(b[i - a.len()] == x);
        }
    }
}

/// A request is trusted by its own source, the one that it is counted for, and its path.
pub proof fn law_request_trusted(
    config: AppConfig,
    lists: Allowlists,
    context: RequestContext,
    h: Headers,
)
    ensures
        ({
            let sources = lists.sources.deep_view();
            let principals = lists.principals.deep_view();
            let trust = proxy::request_trust(config, lists, context, h);
            let who = behavior::counted_principal(config, context, h);
            &&& trust == access::trust_of(lists, context.source_ip@, who, context.path@)
            &&& forall|i: int|
                0 <= i < sources.len() && (#[trigger] sources[i]).source_ip == context.source_ip@
                    ==> trust.source
            &&& forall|i: int|
                0 <= i < principals.len() && text::has_prefix(
                    who,
                    (#[trigger] principals[i]).principal_prefix,
                ) ==> trust.principal
            &&& access::is_trusted(trust) <==> trust.source || trust.principal
        }),
{
}

/// A request's size is what its header says, and else that of the part of its body that is kept.
pub proof fn law_request_size(request: RequestContext, h: Headers)
    ensures
        ({
            let said = headers::field_text(h, "content-length"@);
            let size = validation::request_size_of(request, h);
            let read = text::parsed_uint(said->0, usize::MAX as nat);
            &&& said is Some && read is Some ==> size == read->0
            &&& said is None || read is None ==> size == (if request.body_preview is Some {
                text::byte_len_of(request.body_preview->0@)
            } else {
                0
            })
        }),
{
}

/// What is added to a request: who makes it, for which tenant, and what the first declared route
/// that fits it says.
pub proof fn law_enriched(
    config: AppConfig,
    request: RequestContext,
    h: Headers,
    hits: u64,
    e: EnrichedRequestContext,
)
    requires
        validation::enriched_from(config, request, h, hits, e),
    ensures
        ({
            let path = routes::route_of(request.path@);
            let all = config.spec.routes@;
            let claims = identity::claims_of(h);
            let sub = if claims is Some {
                json::scalar_of(json::member_of(claims->0, "sub"@))
            } else {
                None
            };
            let tenant = if claims is Some {
                json::scalar_of(json::member_of(claims->0, "tenant_id"@))
            } else {
                None
            };
            let key = headers::field_text(h, config.auth.header_name@);
            &&& e.request.deep_view() == request.deep_view() && e.normalized_path@ == path
            &&& e.learned_route_hits == hits && e.schema_mode == config.spec.unknown_route_mode
            &&& sub is Some ==> e.user_id.deep_view() == sub && e.jwt_sub.deep_view() == sub
            &&& sub is None ==> e.jwt_sub is None && e.user_id.deep_view() == headers::field_text(
                h,
                "x-user-id"@,
            )
            &&& tenant is Some ==> e.tenant_id.deep_view() == tenant
            &&& tenant is None ==> e.tenant_id.deep_view() == headers::field_text(h, "x-tenant-id"@)
            &&& key is None ==> e.api_key_hash is None
            &&& key is Some ==> e.api_key_hash.deep_view() == Some(identity::hashed(key->0))
            &&& sub is Some && tenant is Some ==> e.principal.deep_view()
                == PrincipalKeyView::TenantUser(tenant->0, sub->0)
            &&& sub is Some && tenant is None ==> e.principal.deep_view()
                == PrincipalKeyView::JwtSub(sub->0)
            &&& sub is None && key is Some ==> e.principal.deep_view()
                == PrincipalKeyView::ApiKeyHash(identity::hashed(key->0))
            &&& sub is None && key is None ==> e.principal.deep_view() == PrincipalKeyView::Ip(
                request.source_ip@,
            )
            &&& (forall|i: int|
                0 <= i < all.len() ==> !declared::is_route_of(
                    #[trigger] all[i],
                    request.method@,
                    path,
                )) ==> e.normalized_route@ == path && e.sensitivity
                == RouteSensitivity::AuthenticatedStandard && e.required_scopes@.len() == 0
            &&& forall|i: int| #[trigger]
                declared::is_first_route(config, request.method@, path, i) ==> e.normalized_route@
                    == all[i].path_template@ && e.sensitivity == all[i].sensitivity
                    && e.required_scopes.deep_view() == all[i].required_scopes.deep_view()
        }),
{
    let path = routes::route_of(request.path@);
    let all = config.spec.routes@;
    let matched = routes::match_in(routes::compiled_routes(config), request.method@, path);
    declared::law_route_matched(config, request.method@, path);
    assert(e.required_scopes.deep_view().len() == e.required_scopes@.len());
    if matched is Some {
        let k = choose|k: int|
            {
                &&& #[trigger] declared::is_first_route(config, request.method@, path, k)
                &&& matched->0.path_template == all[k].path_template@
                &&& matched->0.sensitivity == all[k].sensitivity
                &&& matched->0.required_scopes == all[k].required_scopes.deep_view()
            };
        assert(declared::is_route_of(all[k], request.method@, path));
        assert forall|i: int| #[trigger]
            declared::is_first_route(config, request.method@, path, i) implies i == k by {
            assert(declared::is_route_of(all[i], request.method@, path));
            assert(declared::is_route_of(all[k], request.method@, path));
        }
    } else {
        assert forall|i: int| !#[trigger]
            declared::is_first_route(config, request.method@, path, i) by {
            if declared::is_first_route(config, request.method@, path, i) {
                assert(declared::is_route_of(all[i], request.method@, path));
            }
        }
    }
}

/// The reputation of a source is kept again after every request in which something was found.
pub proof fn law_reputation_kept(
    m: Map<Seq<char>, RecordView>,
    ip: Seq<char>,
    findings: Seq<Finding>,
    now: Timestamp,
)
    ensures
        ({
            let r = mitigation::reputation_kept(m, ip, findings, now);
            &&& r is Some <==> findings.len() > 0
            &&& r is Some ==> r->0.source_ip == ip && r->0.last_seen_at == now
                && r->0.suspicious_score == mitigation::reputation_after(
                m,
                ip,
                findings,
                now,
            ).suspicious_score
        }),
{
}

/// Every action that blocks the source needs one name.
pub proof fn law_blocks_counted(actions: Seq<MitigationAction>)
    ensures
        mitigation::block_count_of(actions) == actions.filter(
            |a: MitigationAction| a is BlockSourceIpTemporary,
        ).len(),
    decreases actions.len(),
{
    reveal(Seq::filter);
    if actions.len() > 0 {
        law_blocks_counted(actions.drop_last());
    }
}

/// Of the blocks that are placed on a source the last one holds; no other source is touched.
pub proof fn law_last_block_holds(
    m: Map<Seq<char>, RecordView>,
    ip: Seq<char>,
    placed: Seq<ActiveMitigationView>,
    other: Seq<char>,
)
    ensures
        ({
            let after = mitigation::blocks_after(m, ip, placed);
            &&& placed.len() == 0 ==> after == m
            &&& placed.len() > 0 ==> after.dom().contains(ip) && after[ip] == RecordView::Block(
                placed[placed.len() - 1],
            )
            &&& other != ip ==> after.dom().contains(other) == m.dom().contains(other)
            &&& other != ip && m.dom().contains(other) ==> after[other] == m[other]
        }),
{
}

/// What is recommended becomes a command where its action is known: a block can be taken back,
/// a reputation that was reset can not. The parameters are those of the recommendation.
pub proof fn law_commanded(rec: RecommendationView)
    ensures
        ({
            let c = mitigation::command_of(rec);
            &&& c is Some <==> rec.action_key == "block_ip_temporary"@ || rec.action_key
                == "reset_reputation"@
            &&& c is Some ==> c->0.parameters == rec.parameters && c->0.title == rec.title
                && c->0.rationale == rec.rationale
            &&& rec.action_key == "block_ip_temporary"@ ==> c->0.kind
                == OperatorActionKind::BlockIpTemporary && c->0.reversible
            &&& rec.action_key == "reset_reputation"@ ==> c->0.kind
                == OperatorActionKind::ResetReputation && !c->0.reversible
        }),
{
    reveal_strlit("block_ip_temporary");
    reveal_strlit("reset_reputation");
    assert("block_ip_temporary"@.len() == 18 && "reset_reputation"@.len() == 16);
}

/// A reading is one sample more of each measure, and leaves the rest as it is.
pub proof fn law_settled(
    state: BehaviorStateView,
    sample: BehaviorSampleView,
    reading: BehaviorReading,
)
    requires
        sample.rps.samples < u64::MAX,
        sample.body.samples < u64::MAX,
    ensures
        ({
            let s = behavior::settled(state, sample, reading);
            &&& s.rps.samples == sample.rps.samples + 1 && s.body.samples == sample.body.samples + 1
            &&& s.rps.mean_bits == reading.rps_mean_bits && s.rps.m2_bits == reading.rps_m2_bits
            &&& s.body.mean_bits == reading.body_mean_bits && s.body.m2_bits == reading.body_m2_bits
            &&& s.recent_hits == state.recent_hits
            &&& s.recent_object_ids == state.recent_object_ids
        }),
{
}

/// A bundle is named by the time at which it is made.
pub proof fn law_bundle_named(secs: i64)
    ensures
        ({
            let time = outside::compact_utc_time(secs);
            &&& time is Some ==> bundles::bundle_id_of(secs) == Some("bundle-"@ + time->0)
            &&& time is None ==> bundles::bundle_id_of(secs) is None
        }),
{
}

/// Who acts is who the header names.
pub proof fn law_actor(h: Headers)
    ensures
        headers::field_text(h, "x-admin-actor"@) is Some ==> control_plane::actor_of(h)
            == headers::field_text(h, "x-admin-actor"@)->0,
        headers::field_text(h, "x-admin-actor"@) is None ==> control_plane::actor_of(h) == "admin"@,
{
}

/// What is shown of a principal at a route is what is kept of it.
pub proof fn law_snapshot(m: Map<Seq<char>, RecordView>, key: Seq<char>)
    ensures
        ({
            let s = rate_limit::snapshot_of(m, key);
            let kept = rate_limit::behavior_in(m, key);
            &&& s.principal_route_key == key && s.rps == kept.rps && s.body == kept.body
            &&& s.recent_hits_1m == kept.recent_hits.len() as usize
            &&& s.distinct_object_ids_5m == rate_limit::distinct_ids_of(
                kept.recent_object_ids,
            ) as usize
        }),
{
}

/// The busiest come first: by their hits, and among equals by the objects that they asked for.
pub proof fn law_busiest_first(s: Seq<BehaviorBaselineSnapshotView>, i: int, j: int)
    requires
        rate_limit::busiest_first(s),
        0 <= i < j < s.len(),
    ensures
        s[i].recent_hits_1m >= s[j].recent_hits_1m,
        s[i].recent_hits_1m == s[j].recent_hits_1m ==> s[i].distinct_object_ids_5m
            >= s[j].distinct_object_ids_5m,
{
    assert(rate_limit::busier(s[i], s[j]));
}

/// Whether a time is left out or can be read.
pub open spec fn is_time(v: Option<Seq<char>>) -> bool {
    v is None || outside::rfc3339_read(v->0) is Ok
}

/// A time as it is searched for: in universal time.
pub open spec fn in_utc(v: Option<Seq<char>>) -> Option<Seq<char>> {
    if v is None {
        None
    } else {
        Some(outside::rfc3339_read(v->0)->Ok_0.0)
    }
}

/// A search is made where the times that it is given can be read, with these times.
pub proof fn law_times_read(f: EventSearchFilters, g: AuditSearchFilters)
    ensures
        ({
            let r = storage::events_query_of(f);
            let since = f.since.deep_view();
            let until = f.until.deep_view();
            &&& r is Ok <==> is_time(since) && is_time(until)
            &&& r is Ok ==> r->Ok_0 == storage::events_sql(f, in_utc(since), in_utc(until))
            &&& !is_time(since) ==> r->Err_0 == outside::rfc3339_read(since->0)->Err_0
        }),
        ({
            let r = storage::audits_query_of(g);
            let since = g.since.deep_view();
            let until = g.until.deep_view();
            &&& r is Ok <==> is_time(since) && is_time(until)
            &&& r is Ok ==> r->Ok_0 == storage::audits_sql(g, in_utc(since), in_utc(until))
            &&& !is_time(since) ==> r->Err_0 == outside::rfc3339_read(since->0)->Err_0
        }),
{
}

/// A time that is kept is read as nanoseconds.
pub proof fn law_instant(input: Seq<char>)
    ensures
        ({
            let t = outside::rfc3339_read(input);
            &&& t is Err ==> storage::timestamp_from(input) is None
            &&& t is Ok ==> storage::timestamp_from(input) == Some(
                (t->Ok_0.1 * 1_000_000_000 + t->Ok_0.2) as i128,
            )
        }),
{
}

/// A route that was approved, promoted or is managed is known under its method and path.
pub proof fn law_route_keys(
    approved: Seq<ApprovedShadowRoute>,
    promoted: Seq<PromotedSpecRoute>,
    managed: Seq<ManagedSpecRoute>,
    keys: Seq<Seq<char>>,
    i: int,
)
    ensures
        inventory::keys_of_routes(keys, inventory::approved_keys(approved)) && 0 <= i
            < approved.len() ==> keys.contains(
            types::route_key_of(approved[i].method@, approved[i].normalized_path@),
        ),
        inventory::keys_of_routes(keys, inventory::promoted_keys(promoted)) && 0 <= i
            < promoted.len() ==> keys.contains(
            types::route_key_of(promoted[i].method@, promoted[i].normalized_path@),
        ),
        inventory::keys_of_routes(keys, inventory::managed_keys(managed)) && 0 <= i
            < managed.len() ==> keys.contains(
            types::route_key_of(managed[i].method@, managed[i].normalized_path@),
        ),
        inventory::keys_of_routes(keys, inventory::approved_keys(approved)) && approved.len() == 0
            ==> keys.len() == 0,
{
    if 0 <= i < approved.len() {
        assert(inventory::approved_keys(approved).contains(inventory::approved_keys(approved)[i]));
    }
    if 0 <= i < promoted.len() {
        assert(inventory::promoted_keys(promoted).contains(inventory::promoted_keys(promoted)[i]));
    }
    if 0 <= i < managed.len() {
        assert(inventory::managed_keys(managed).contains(inventory::managed_keys(managed)[i]));
    }
    if keys.len() > 0 {
        assert(keys.contains(keys[0]));
    }
}

/// The routes that were seen last come first.
pub proof fn law_latest_first(s: Seq<LearnedRouteView>, i: int, j: int)
    requires
        inventory::latest_first(s),
        0 <= i < j < s.len(),
    ensures
        s[i].last_seen >= s[j].last_seen,
{
}

/// An enrollment changes who the firewall is, and nothing else.
pub proof fn law_enrollment_leaves(a: ControlPlaneConfig, b: ControlPlaneConfig)
    requires
        enrollment::same_apart_from_enrollment(a, b),
    ensures
        a.enrollment_enabled == b.enrollment_enabled,
        a.enrollment_url == b.enrollment_url,
        a.ingestion_url == b.ingestion_url,
        a.installation_identifier == b.installation_identifier,
        a.hostname == b.hostname && a.version == b.version && a.region == b.region,
        a.request_timeout_ms == b.request_timeout_ms,
        a.queue_capacity == b.queue_capacity,
{
}

/// Settings without an error are accepted; an error is told as it is.
pub proof fn law_verdict(e: ConfigError)
    ensures
        config::verdict(None) is Ok,
        config::verdict(Some(e)) == Err::<(), ConfigError>(e),
{
}

/// A status is shown with its reason where it has one.
pub proof fn law_status_shown(status: u16)
    ensures
        ({
            let named = outside::status_with_reason(status);
            &&& named is Some ==> telemetry_delivery::status_text_of(status) == named->0
            &&& named is None ==> telemetry_delivery::status_text_of(status) == text::decimal_of(
                status as nat,
            )
        }),
{
}

/// What went wrong with an enrollment is told, with the status where there is one.
pub proof fn law_enrollment_error_told(status: u16, shown: Seq<char>)
    ensures
        enrollment::enrollment_error_text(EnrollmentError::Refused(status), shown)
            == "control-plane enrollment failed with status "@ + shown,
        enrollment::enrollment_error_text(EnrollmentError::MissingData, shown)
            == "control-plane enrollment response missing data"@,
        enrollment::enrollment_error_text(EnrollmentError::Invalid, shown)
            == "control-plane enrollment response is invalid"@,
{
}

} // verus!
