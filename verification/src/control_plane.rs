//! What administrators change: the policy in force, the lists and the inventories.

use crate::config::{
    AppConfig, RouteBehaviorOverride, RouteBehaviorOverrideView, RoutePolicyOverride,
    RoutePolicyOverrideView, RouteRateLimitOverride, RouteRateLimitOverrideView,
};
use crate::headers;
use crate::headers::Headers;
use crate::records::{
    AdminAudit, AdminAuditView, AnalystSuppression, AnalystSuppressionView,
    ManagedSpecReleaseState, ManagedSpecReleaseStateView, PrincipalAllowlistEntry,
    PrincipalAllowlistEntryView, ScopedPrincipalAllowlistEntry, ScopedPrincipalAllowlistEntryView,
    ScopedSourceAllowlistEntry, ScopedSourceAllowlistEntryView, SourceAllowlistEntry,
    SourceAllowlistEntryView, TriScopedAllowlistEntry, TriScopedAllowlistEntryView,
};
use crate::requests::{
    ApproveShadowRouteRequest, ManualBlockRequest, PromoteShadowRouteRequest,
    PromoteToManagedSpecRequest, SetGlobalRuleModeRequest, UpsertManagedSpecReleaseStateRequest,
    UpsertPrincipalAllowlistRequest, UpsertRouteBehaviorOverrideRequest,
    UpsertRouteOverrideRequest, UpsertRouteRateLimitRequest, UpsertScopedPrincipalAllowlistRequest,
    UpsertScopedSourceAllowlistRequest, UpsertSourceAllowlistRequest, UpsertSuppressionRequest,
    UpsertTriScopedAllowlistRequest,
};
use crate::table;
use crate::text;
use crate::types::{
    ApprovedShadowRoute, ApprovedShadowRouteView, LivePolicyState, LivePolicyStateView,
    ManagedSpecRoute, ManagedSpecRouteView, PromotedSpecRoute, PromotedSpecRouteView, Timestamp,
};
use vstd::prelude::*;

verus! {

/// The position of the first item with a key.
pub open spec fn key_index<A>(
    s: Seq<A>,
    key: spec_fn(A) -> Seq<char>,
    k: Seq<char>,
) -> Option<int>
    decreases s.len(),
{
    if s.len() == 0 {
        None
    } else {
        match key_index(s.drop_last(), key, k) {
            Some(i) => Some(i),
            None => if key(s.last()) == k {
                Some(s.len() - 1)
            } else {
                None
            },
        }
    }
}

/// The items with the first one that has the key of `item` replaced by it, or with it added.
pub open spec fn upserted<A>(s: Seq<A>, key: spec_fn(A) -> Seq<char>, item: A) -> Seq<A> {
    match key_index(s, key, key(item)) {
        Some(i) => s.update(i, item),
        None => s.push(item),
    }
}

/// The items without those that have the key.
pub open spec fn without<A>(s: Seq<A>, key: spec_fn(A) -> Seq<char>, k: Seq<char>) -> Seq<A>
    decreases s.len(),
{
    if s.len() == 0 {
        Seq::empty()
    } else {
        let before = without(s.drop_last(), key, k);
        if key(s.last()) == k {
            before
        } else {
            before.push(s.last())
        }
    }
}

proof fn lemma_key_index<A>(s: Seq<A>, key: spec_fn(A) -> Seq<char>, k: Seq<char>)
    ensures
        match key_index(s, key, k) {
            Some(i) => 0 <= i < s.len() && key(s[i]) == k && forall|j: int|
                0 <= j < i ==> key(#[trigger] s[j]) != k,
            None => forall|j: int| 0 <= j < s.len() ==> key(#[trigger] s[j]) != k,
        },
    decreases s.len(),
{
    if s.len() > 0 {
        let d = s.drop_last();
        lemma_key_index(d, key, k);
        match key_index(d, key, k) {
            Some(i) => {
                assert(d[i] == s[i]);
                assert forall|j: int| 0 <= j < i implies key(#[trigger] s[j]) != k by {
                    assert(d[j] == s[j]);
                }
            },
            None => {
                assert forall|j: int| 0 <= j < s.len() - 1 implies key(#[trigger] s[j]) != k by {
                    assert(d[j] == s[j]);
                }
            },
        }
    }
}

proof fn lemma_without_kept<A>(s: Seq<A>, key: spec_fn(A) -> Seq<char>, k: Seq<char>)
    requires
        forall|j: int| 0 <= j < s.len() ==> key(#[trigger] s[j]) != k,
    ensures
        without(s, key, k) == s,
    decreases s.len(),
{
    if s.len() > 0 {
        let d = s.drop_last();
        assert forall|j: int| 0 <= j < d.len() implies key(#[trigger] d[j]) != k by {
            assert(d[j] == s[j]);
        }
        lemma_without_kept(d, key, k);
        assert(key(s[s.len() - 1]) != k);
        assert(d.push(s.last()) =~= s);
    } else {
        assert(s =~= Seq::empty());
    }
}

/// Deleting undoes adding: what was not there before is gone again, and nothing else changed.
pub proof fn law_delete_undoes_upsert<A>(s: Seq<A>, key: spec_fn(A) -> Seq<char>, item: A)
    requires
        key_index(s, key, key(item)) is None,
    ensures
        without(upserted(s, key, item), key, key(item)) == s,
{
    lemma_key_index(s, key, key(item));
    lemma_without_kept(s, key, key(item));
    assert(s.push(item).drop_last() =~= s);
}

/// What was put in is found under its key, and what has other keys stays where it was.
pub proof fn law_upsert<A>(s: Seq<A>, key: spec_fn(A) -> Seq<char>, item: A)
    ensures
        match key_index(upserted(s, key, item), key, key(item)) {
            Some(i) => upserted(s, key, item)[i] == item,
            None => false,
        },
        forall|j: int|
            0 <= j < s.len() && key(#[trigger] s[j]) != key(item) ==> upserted(s, key, item)[j]
                == s[j],
{
    let k = key(item);
    let t = upserted(s, key, item);
    lemma_key_index(s, key, k);
    lemma_key_index(t, key, k);
    match key_index(s, key, k) {
        Some(i) => {
            assert(key(t[i]) == k);
            let p = key_index(t, key, k)->0;
            if key_index(t, key, k) is Some && p < i {
                assert(t[p] == s[p]);
                assert(key(s[p]) != k);
            }
        },
        None => {
            assert(key(t[s.len() as int]) == k);
            let p = key_index(t, key, k)->0;
            if key_index(t, key, k) is Some && p < s.len() {
                assert(t[p] == s[p]);
            }
        },
    }
}

/// After deleting, nothing has the key.
pub proof fn law_deleted_is_gone<A>(s: Seq<A>, key: spec_fn(A) -> Seq<char>, k: Seq<char>)
    ensures
        key_index(without(s, key, k), key, k) is None,
        without(s, key, k).len() <= s.len(),
        (without(s, key, k).len() == s.len()) == (key_index(s, key, k) is None),
    decreases s.len(),
{
    if s.len() > 0 {
        law_deleted_is_gone(s.drop_last(), key, k);
        let before = without(s.drop_last(), key, k);
        assert(before.push(s.last()).drop_last() =~= before);
    }
}

pub open spec fn by_override_prefix() -> spec_fn(RoutePolicyOverrideView) -> Seq<char> {
    |o: RoutePolicyOverrideView| o.path_prefix
}

pub open spec fn by_limit_prefix() -> spec_fn(RouteRateLimitOverrideView) -> Seq<char> {
    |o: RouteRateLimitOverrideView| o.path_prefix
}

pub open spec fn by_behavior_prefix() -> spec_fn(RouteBehaviorOverrideView) -> Seq<char> {
    |o: RouteBehaviorOverrideView| o.path_prefix
}

/// Sets the mode of a rule.
pub fn set_global_rule_mode(policy: &mut LivePolicyState, request: &SetGlobalRuleModeRequest)
    ensures
        final(policy).deep_view() == (LivePolicyStateView {
            global_rule_modes: table::put(
                old(policy).deep_view().global_rule_modes,
                request.rule_id@,
                request.mode,
            ),
            ..old(policy).deep_view()
        }),
{
    let mut modes = policy.global_rule_modes.clone();
    modes.insert(request.rule_id.clone(), request.mode);
    policy.global_rule_modes = modes;
}

/// Sets the rule modes of a path prefix.
pub fn upsert_route_override(policy: &mut LivePolicyState, request: &UpsertRouteOverrideRequest)
    ensures
        final(policy).deep_view() == (LivePolicyStateView {
            route_overrides: upserted(
                old(policy).deep_view().route_overrides,
                by_override_prefix(),
                RoutePolicyOverrideView {
                    path_prefix: request.path_prefix@,
                    rule_modes: request.rule_modes.deep_view(),
                },
            ),
            ..old(policy).deep_view()
        }),
{
    let ghost before = policy.route_overrides.deep_view();
    let ghost key = by_override_prefix();
    let item = RoutePolicyOverride {
        path_prefix: request.path_prefix.clone(),
        rule_modes: request.rule_modes.clone(),
    };
    let ghost view = item.deep_view();
    let n: usize = policy.route_overrides.len();
    let mut i: usize = 0;
    assert(before.take(0) =~= Seq::empty());
    while i < n && !text::same(
        policy.route_overrides[i].path_prefix.as_str(),
        request.path_prefix.as_str(),
    )
        invariant
            i <= n,
            n == policy.route_overrides@.len(),
            before == policy.route_overrides.deep_view(),
            key == by_override_prefix(),
            *policy == *old(policy),
            key_index(before.take(i as int), key, request.path_prefix@) is None,
        decreases n - i,
    {
        assert(before.take(i + 1).drop_last() =~= before.take(i as int));
        assert(before.take(i + 1).last() == policy.route_overrides@[i as int].deep_view());
        i = i + 1;
    }
    proof {
        lemma_first(before, key, request.path_prefix@, i as int);
    }
    let mut items = take_overrides(&policy.route_overrides);
    if i < n {
        assert(before[i as int] == policy.route_overrides@[i as int].deep_view());
        items.set(i, item);
        assert(items.deep_view() =~= before.update(i as int, view));
    } else {
        assert(before.take(i as int) =~= before);
        items.push(item);
        assert(items.deep_view() =~= before.push(view));
    }
    policy.route_overrides = items;
}

/// The first item with the key is where the search stopped.
proof fn lemma_first<A>(s: Seq<A>, key: spec_fn(A) -> Seq<char>, k: Seq<char>, i: int)
    requires
        0 <= i <= s.len(),
        key_index(s.take(i), key, k) is None,
    ensures
        i < s.len() && key(s[i]) == k ==> key_index(s, key, k) == Some(i),
        i == s.len() ==> key_index(s, key, k) is None,
{
    lemma_key_index(s, key, k);
    lemma_key_index(s.take(i), key, k);
    assert(s.take(s.len() as int) =~= s);
    if i < s.len() && key(s[i]) == k {
        let p = key_index(s, key, k)->0;
        if key_index(s, key, k) is Some && p < i {
            assert(s.take(i)[p] == s[p]);
        }
    }
}

fn take_overrides(v: &Vec<RoutePolicyOverride>) -> (r: Vec<RoutePolicyOverride>)
    ensures
        r.deep_view() == v.deep_view(),
{
    let r = v.clone();
    assert(r.deep_view() =~= v.deep_view());
    r
}

/// Deletes the rule modes of a path prefix and says whether there were any.
pub fn delete_route_override(policy: &mut LivePolicyState, path_prefix: &str) -> (r: bool)
    ensures
        final(policy).deep_view() == (LivePolicyStateView {
            route_overrides: without(
                old(policy).deep_view().route_overrides,
                by_override_prefix(),
                path_prefix@,
            ),
            ..old(policy).deep_view()
        }),
        r == (key_index(
            old(policy).deep_view().route_overrides,
            by_override_prefix(),
            path_prefix@,
        ) is Some),
{
    let ghost before = policy.route_overrides.deep_view();
    let ghost key = by_override_prefix();
    let items = &policy.route_overrides;
    let mut out: Vec<RoutePolicyOverride> = Vec::new();
    let mut i: usize = 0;
    assert(before.take(0) =~= Seq::empty());
    assert(out.deep_view() =~= Seq::empty());
    while i < items.len()
        invariant
            i <= items@.len(),
            before == items.deep_view(),
            key == by_override_prefix(),
            out.deep_view() == without(before.take(i as int), key, path_prefix@),
        decreases items@.len() - i,
    {
        assert(before.take(i + 1).drop_last() =~= before.take(i as int));
        assert(before.take(i + 1).last() == items@[i as int].deep_view());
        if !text::same(items[i].path_prefix.as_str(), path_prefix) {
            let ghost so_far = out.deep_view();
            let item = items[i].clone();
            let ghost view = item.deep_view();
            out.push(item);
            assert(out.deep_view() =~= so_far.push(view));
        }
        i = i + 1;
    }
    assert(before.take(i as int) =~= before);
    proof {
        law_deleted_is_gone(before, key, path_prefix@);
    }
    let removed = out.len() != items.len();
    policy.route_overrides = out;
    removed
}

/// Sets the rate limit of a path prefix.
pub fn upsert_route_rate_limit(policy: &mut LivePolicyState, request: &UpsertRouteRateLimitRequest)
    ensures
        final(policy).deep_view() == (LivePolicyStateView {
            route_rate_limits: upserted(
                old(policy).deep_view().route_rate_limits,
                by_limit_prefix(),
                RouteRateLimitOverrideView {
                    path_prefix: request.path_prefix@,
                    requests_per_window: request.requests_per_window,
                    window_secs: request.window_secs,
                },
            ),
            ..old(policy).deep_view()
        }),
{
    let ghost before = policy.route_rate_limits.deep_view();
    let ghost key = by_limit_prefix();
    let item = RouteRateLimitOverride {
        path_prefix: request.path_prefix.clone(),
        requests_per_window: request.requests_per_window,
        window_secs: request.window_secs,
    };
    let ghost view = item.deep_view();
    let n: usize = policy.route_rate_limits.len();
    let mut i: usize = 0;
    assert(before.take(0) =~= Seq::empty());
    while i < n && !text::same(
        policy.route_rate_limits[i].path_prefix.as_str(),
        request.path_prefix.as_str(),
    )
        invariant
            i <= n,
            n == policy.route_rate_limits@.len(),
            before == policy.route_rate_limits.deep_view(),
            key == by_limit_prefix(),
            *policy == *old(policy),
            key_index(before.take(i as int), key, request.path_prefix@) is None,
        decreases n - i,
    {
        assert(before.take(i + 1).drop_last() =~= before.take(i as int));
        assert(before.take(i + 1).last() == policy.route_rate_limits@[i as int].deep_view());
        i = i + 1;
    }
    proof {
        lemma_first(before, key, request.path_prefix@, i as int);
    }
    let mut items = policy.route_rate_limits.clone();
    assert(items.deep_view() =~= before);
    if i < n {
        assert(before[i as int] == policy.route_rate_limits@[i as int].deep_view());
        items.set(i, item);
        assert(items.deep_view() =~= before.update(i as int, view));
    } else {
        assert(before.take(i as int) =~= before);
        items.push(item);
        assert(items.deep_view() =~= before.push(view));
    }
    policy.route_rate_limits = items;
}

/// Deletes the rate limit of a path prefix and says whether there was one.
pub fn delete_route_rate_limit(policy: &mut LivePolicyState, path_prefix: &str) -> (r: bool)
    ensures
        final(policy).deep_view() == (LivePolicyStateView {
            route_rate_limits: without(
                old(policy).deep_view().route_rate_limits,
                by_limit_prefix(),
                path_prefix@,
            ),
            ..old(policy).deep_view()
        }),
        r == (key_index(
            old(policy).deep_view().route_rate_limits,
            by_limit_prefix(),
            path_prefix@,
        ) is Some),
{
    let ghost before = policy.route_rate_limits.deep_view();
    let ghost key = by_limit_prefix();
    let items = &policy.route_rate_limits;
    let mut out: Vec<RouteRateLimitOverride> = Vec::new();
    let mut i: usize = 0;
    assert(before.take(0) =~= Seq::empty());
    assert(out.deep_view() =~= Seq::empty());
    while i < items.len()
        invariant
            i <= items@.len(),
            before == items.deep_view(),
            key == by_limit_prefix(),
            out.deep_view() == without(before.take(i as int), key, path_prefix@),
        decreases items@.len() - i,
    {
        assert(before.take(i + 1).drop_last() =~= before.take(i as int));
        assert(before.take(i + 1).last() == items@[i as int].deep_view());
        if !text::same(items[i].path_prefix.as_str(), path_prefix) {
            let ghost so_far = out.deep_view();
            let item = items[i].clone();
            let ghost view = item.deep_view();
            out.push(item);
            assert(out.deep_view() =~= so_far.push(view));
        }
        i = i + 1;
    }
    assert(before.take(i as int) =~= before);
    proof {
        law_deleted_is_gone(before, key, path_prefix@);
    }
    let removed = out.len() != items.len();
    policy.route_rate_limits = out;
    removed
}

/// Sets the behaviour limits of a path prefix.
pub fn upsert_route_behavior_override(
    policy: &mut LivePolicyState,
    request: &UpsertRouteBehaviorOverrideRequest,
)
    ensures
        final(policy).deep_view() == (LivePolicyStateView {
            route_behavior_overrides: upserted(
                old(policy).deep_view().route_behavior_overrides,
                by_behavior_prefix(),
                RouteBehaviorOverrideView {
                    path_prefix: request.path_prefix@,
                    warmup_min_samples: request.warmup_min_samples,
                    object_enumeration_threshold: request.object_enumeration_threshold,
                    object_window_secs: request.object_window_secs,
                },
            ),
            ..old(policy).deep_view()
        }),
{
    let ghost before = policy.route_behavior_overrides.deep_view();
    let ghost key = by_behavior_prefix();
    let item = RouteBehaviorOverride {
        path_prefix: request.path_prefix.clone(),
        warmup_min_samples: request.warmup_min_samples,
        object_enumeration_threshold: request.object_enumeration_threshold,
        object_window_secs: request.object_window_secs,
    };
    let ghost view = item.deep_view();
    let n: usize = policy.route_behavior_overrides.len();
    let mut i: usize = 0;
    assert(before.take(0) =~= Seq::empty());
    while i < n && !text::same(
        policy.route_behavior_overrides[i].path_prefix.as_str(),
        request.path_prefix.as_str(),
    )
        invariant
            i <= n,
            n == policy.route_behavior_overrides@.len(),
            before == policy.route_behavior_overrides.deep_view(),
            key == by_behavior_prefix(),
            *policy == *old(policy),
            key_index(before.take(i as int), key, request.path_prefix@) is None,
        decreases n - i,
    {
        assert(before.take(i + 1).drop_last() =~= before.take(i as int));
        assert(before.take(i + 1).last()
            == policy.route_behavior_overrides@[i as int].deep_view());
        i = i + 1;
    }
    proof {
        lemma_first(before, key, request.path_prefix@, i as int);
    }
    let mut items = policy.route_behavior_overrides.clone();
    assert(items.deep_view() =~= before);
    if i < n {
        assert(before[i as int] == policy.route_behavior_overrides@[i as int].deep_view());
        items.set(i, item);
        assert(items.deep_view() =~= before.update(i as int, view));
    } else {
        assert(before.take(i as int) =~= before);
        items.push(item);
        assert(items.deep_view() =~= before.push(view));
    }
    policy.route_behavior_overrides = items;
}

/// Deletes the behaviour limits of a path prefix and says whether there were any.
pub fn delete_route_behavior_override(policy: &mut LivePolicyState, path_prefix: &str) -> (r: bool)
    ensures
        final(policy).deep_view() == (LivePolicyStateView {
            route_behavior_overrides: without(
                old(policy).deep_view().route_behavior_overrides,
                by_behavior_prefix(),
                path_prefix@,
            ),
            ..old(policy).deep_view()
        }),
        r == (key_index(
            old(policy).deep_view().route_behavior_overrides,
            by_behavior_prefix(),
            path_prefix@,
        ) is Some),
{
    let ghost before = policy.route_behavior_overrides.deep_view();
    let ghost key = by_behavior_prefix();
    let items = &policy.route_behavior_overrides;
    let mut out: Vec<RouteBehaviorOverride> = Vec::new();
    let mut i: usize = 0;
    assert(before.take(0) =~= Seq::empty());
    assert(out.deep_view() =~= Seq::empty());
    while i < items.len()
        invariant
            i <= items@.len(),
            before == items.deep_view(),
            key == by_behavior_prefix(),
            out.deep_view() == without(before.take(i as int), key, path_prefix@),
        decreases items@.len() - i,
    {
        assert(before.take(i + 1).drop_last() =~= before.take(i as int));
        assert(before.take(i + 1).last() == items@[i as int].deep_view());
        if !text::same(items[i].path_prefix.as_str(), path_prefix) {
            let ghost so_far = out.deep_view();
            let item = items[i].clone();
            let ghost view = item.deep_view();
            out.push(item);
            assert(out.deep_view() =~= so_far.push(view));
        }
        i = i + 1;
    }
    assert(before.take(i as int) =~= before);
    proof {
        law_deleted_is_gone(before, key, path_prefix@);
    }
    let removed = out.len() != items.len();
    policy.route_behavior_overrides = out;
    removed
}

/// Who acts: the name in the header, else the administrator.
pub open spec fn actor_of(h: Headers) -> Seq<char> {
    match headers::field_text(h, "x-admin-actor"@) {
        Some(v) => v,
        None => "admin"@,
    }
}

pub fn actor_from_headers(headers: &Headers) -> (r: String)
    ensures
        r@ == actor_of(*headers),
{
    match headers.get("x-admin-actor") {
        Some(v) => v.to_string(),
        None => "admin".to_string(),
    }
}

/// The record of something that an administrator did.
pub fn audit(
    actor: String,
    action: &str,
    target: String,
    result: &str,
    details: String,
    now: Timestamp,
) -> (r: AdminAudit)
    ensures
        r.deep_view() == (AdminAuditView {
            timestamp: now,
            actor: actor@,
            action: action@,
            target: target@,
            result: result@,
            details: details@,
        }),
{
    AdminAudit {
        timestamp: now,
        actor,
        action: action.to_string(),
        target,
        result: result.to_string(),
        details,
    }
}

/// What a deletion came to.
pub fn removal_word(removed: bool) -> (r: &'static str)
    ensures
        r@ == (if removed {
            "removed"@
        } else {
            "not_found"@
        }),
{
    if removed {
        "removed"
    } else {
        "not_found"
    }
}

/// How many baselines are shown: fifty where nothing is said, held between one and 500.
pub fn baseline_limit(limit: Option<usize>) -> (r: usize)
    ensures
        r == (match limit {
            Some(n) => if n < 1 {
                1
            } else if n > 500 {
                500
            } else {
                n as int
            },
            None => 50,
        }),
{
    match limit {
        Some(n) => if n < 1 {
            1
        } else if n > 500 {
            500
        } else {
            n
        },
        None => 50,
    }
}

/// For how long and why a source is blocked by hand: what is asked for, else the configured time and
/// a plain reason.
pub fn manual_block_terms(config: &AppConfig, request: &ManualBlockRequest) -> (r: (u64, String))
    ensures
        r.0 == (match request.ttl_secs {
            Some(ttl) => ttl,
            None => config.security.temp_ban_secs,
        }),
        r.1@ == (match request.reason.deep_view() {
            Some(reason) => reason,
            None => "manual block via admin API"@,
        }),
{
    let ttl_secs: u64 = match request.ttl_secs {
        Some(ttl) => ttl,
        None => config.security.temp_ban_secs,
    };
    let reason = match &request.reason {
        Some(reason) => reason.clone(),
        None => "manual block via admin API".to_string(),
    };
    (ttl_secs, reason)
}

pub fn source_allowlist_entry(
    request: UpsertSourceAllowlistRequest,
    actor: String,
    now: Timestamp,
) -> (r: SourceAllowlistEntry)
    ensures
        r.deep_view() == (SourceAllowlistEntryView {
            source_ip: request.source_ip@,
            created_at: now,
            created_by: actor@,
            reason: request.reason.deep_view(),
        }),
{
    SourceAllowlistEntry {
        source_ip: request.source_ip,
        created_at: now,
        created_by: actor,
        reason: request.reason,
    }
}

pub fn principal_allowlist_entry(
    request: UpsertPrincipalAllowlistRequest,
    actor: String,
    now: Timestamp,
) -> (r: PrincipalAllowlistEntry)
    ensures
        r.deep_view() == (PrincipalAllowlistEntryView {
            principal_prefix: request.principal_prefix@,
            created_at: now,
            created_by: actor@,
            reason: request.reason.deep_view(),
        }),
{
    PrincipalAllowlistEntry {
        principal_prefix: request.principal_prefix,
        created_at: now,
        created_by: actor,
        reason: request.reason,
    }
}

pub fn scoped_source_allowlist_entry(
    request: UpsertScopedSourceAllowlistRequest,
    actor: String,
    now: Timestamp,
) -> (r: ScopedSourceAllowlistEntry)
    ensures
        r.deep_view() == (ScopedSourceAllowlistEntryView {
            source_ip: request.source_ip@,
            path_prefix: request.path_prefix@,
            created_at: now,
            created_by: actor@,
            reason: request.reason.deep_view(),
        }),
{
    ScopedSourceAllowlistEntry {
        source_ip: request.source_ip,
        path_prefix: request.path_prefix,
        created_at: now,
        created_by: actor,
        reason: request.reason,
    }
}

pub fn scoped_principal_allowlist_entry(
    request: UpsertScopedPrincipalAllowlistRequest,
    actor: String,
    now: Timestamp,
) -> (r: ScopedPrincipalAllowlistEntry)
    ensures
        r.deep_view() == (ScopedPrincipalAllowlistEntryView {
            principal_prefix: request.principal_prefix@,
            path_prefix: request.path_prefix@,
            created_at: now,
            created_by: actor@,
            reason: request.reason.deep_view(),
        }),
{
    ScopedPrincipalAllowlistEntry {
        principal_prefix: request.principal_prefix,
        path_prefix: request.path_prefix,
        created_at: now,
        created_by: actor,
        reason: request.reason,
    }
}

pub fn tri_scoped_allowlist_entry(
    request: UpsertTriScopedAllowlistRequest,
    actor: String,
    now: Timestamp,
) -> (r: TriScopedAllowlistEntry)
    ensures
        r.deep_view() == (TriScopedAllowlistEntryView {
            source_ip: request.source_ip@,
            principal_prefix: request.principal_prefix@,
            path_prefix: request.path_prefix@,
            created_at: now,
            created_by: actor@,
            reason: request.reason.deep_view(),
        }),
{
    TriScopedAllowlistEntry {
        source_ip: request.source_ip,
        principal_prefix: request.principal_prefix,
        path_prefix: request.path_prefix,
        created_at: now,
        created_by: actor,
        reason: request.reason,
    }
}

pub fn analyst_suppression(
    request: UpsertSuppressionRequest,
    actor: String,
    now: Timestamp,
) -> (r: AnalystSuppression)
    ensures
        r.deep_view() == (AnalystSuppressionView {
            rule_id: request.rule_id@,
            path_prefix: request.path_prefix.deep_view(),
            created_at: now,
            created_by: actor@,
            reason: request.reason.deep_view(),
        }),
{
    AnalystSuppression {
        rule_id: request.rule_id,
        path_prefix: request.path_prefix,
        created_at: now,
        created_by: actor,
        reason: request.reason,
    }
}

pub fn approve_shadow_route(
    request: ApproveShadowRouteRequest,
    actor: String,
    now: Timestamp,
) -> (r: ApprovedShadowRoute)
    ensures
        r.deep_view() == (ApprovedShadowRouteView {
            method: text::upper_of(request.method@),
            normalized_path: request.normalized_path@,
            approved_at: now,
            approved_by: actor@,
            note: request.note.deep_view(),
        }),
{
    ApprovedShadowRoute {
        method: text::to_ascii_uppercase(request.method.as_str()),
        normalized_path: request.normalized_path,
        approved_at: now,
        approved_by: actor,
        note: request.note,
    }
}

pub fn promote_shadow_route(
    request: PromoteShadowRouteRequest,
    actor: String,
    now: Timestamp,
) -> (r: PromotedSpecRoute)
    ensures
        r.deep_view() == (PromotedSpecRouteView {
            method: text::upper_of(request.method@),
            normalized_path: request.normalized_path@,
            promoted_at: now,
            promoted_by: actor@,
            source: "shadow_route"@,
            note: request.note.deep_view(),
        }),
{
    PromotedSpecRoute {
        method: text::to_ascii_uppercase(request.method.as_str()),
        normalized_path: request.normalized_path,
        promoted_at: now,
        promoted_by: actor,
        source: "shadow_route".to_string(),
        note: request.note,
    }
}

pub fn promote_to_managed_spec(
    request: PromoteToManagedSpecRequest,
    actor: String,
    now: Timestamp,
) -> (r: ManagedSpecRoute)
    ensures
        r.deep_view() == (ManagedSpecRouteView {
            method: text::upper_of(request.method@),
            normalized_path: request.normalized_path@,
            managed_at: now,
            managed_by: actor@,
            auth_required: request.auth_required,
            note: request.note.deep_view(),
        }),
{
    ManagedSpecRoute {
        method: text::to_ascii_uppercase(request.method.as_str()),
        normalized_path: request.normalized_path,
        managed_at: now,
        managed_by: actor,
        auth_required: request.auth_required,
        note: request.note,
    }
}

/// The release state that an administrator sets, without regard to the state before.
pub fn upsert_managed_spec_release_state(
    request: UpsertManagedSpecReleaseStateRequest,
    actor: String,
    now: Timestamp,
) -> (r: ManagedSpecReleaseState)
    ensures
        r.deep_view() == (ManagedSpecReleaseStateView {
            method: text::upper_of(request.method@),
            normalized_path: request.normalized_path@,
            channel: request.channel@,
            updated_at: now,
            updated_by: actor@,
            note: request.note.deep_view(),
        }),
{
    ManagedSpecReleaseState {
        method: text::to_ascii_uppercase(request.method.as_str()),
        normalized_path: request.normalized_path,
        channel: request.channel,
        updated_at: now,
        updated_by: actor,
        note: request.note,
    }
}

} // verus!
