//! How often a source may ask, and what stands out in how it asks.

use crate::behavior;
use crate::behavior::{BehaviorReading, BehaviorSampleView};
use crate::config::AppConfig;
use crate::headers;
use crate::headers::Headers;
use crate::identity;
use crate::json;
use crate::rate_limit;
use crate::routes;
use crate::store::{RecordView, SeenIdView};
use crate::text;
use crate::types;
use crate::types::{AttackClass, LivePolicyState, RequestContext, Severity};
use vstd::prelude::*;

verus! {

/// Whether a rate limit is the first whose prefix a path starts with.
pub open spec fn is_first_limit(policy: LivePolicyState, path: Seq<char>, i: int) -> bool {
    let limits = policy.route_rate_limits@;
    &&& 0 <= i < limits.len()
    &&& text::has_prefix(path, limits[i].path_prefix@)
    &&& forall|j: int| 0 <= j < i ==> !text::has_prefix(path, (#[trigger] limits[j]).path_prefix@)
}

proof fn lemma_route_limit(
    limits: Seq<crate::config::RouteRateLimitOverride>,
    path: Seq<char>,
    i: int,
)
    requires
        0 <= i <= limits.len(),
        i < limits.len() ==> text::has_prefix(path, limits[i].path_prefix@),
        forall|j: int| 0 <= j < i ==> !text::has_prefix(path, (#[trigger] limits[j]).path_prefix@),
    ensures
        types::route_limit(limits, path) == (if i < limits.len() {
            Some(limits[i])
        } else {
            None
        }),
    decreases limits.len(),
{
    if i > 0 {
        let rest = limits.drop_first();
        assert(!text::has_prefix(path, limits[0].path_prefix@));
        assert forall|j: int| 0 <= j < i - 1 implies !text::has_prefix(
            path,
            (#[trigger] rest[j]).path_prefix@,
        ) by {
            assert(rest[j] == limits[j + 1]);
        }
        lemma_route_limit(rest, path, i - 1);
    }
}

/// The first route limit whose prefix a path starts with applies to it, with its own number of
/// requests and its own window; the limit of the configuration applies where no prefix fits.
pub proof fn law_limit_applies(policy: LivePolicyState, config: AppConfig, path: Seq<char>, i: int)
    ensures
        is_first_limit(policy, path, i) ==> types::rate_limit_of(policy, config, path) == (
            policy.route_rate_limits@[i].path_prefix@,
            policy.route_rate_limits@[i].requests_per_window,
            policy.route_rate_limits@[i].window_secs,
        ),
        (forall|j: int|
            0 <= j < policy.route_rate_limits@.len() ==> !text::has_prefix(
                path,
                (#[trigger] policy.route_rate_limits@[j]).path_prefix@,
            )) ==> types::rate_limit_of(policy, config, path) == (
            "default"@,
            config.security.rate_limit.requests_per_window,
            config.security.rate_limit.window_secs,
        ),
{
    let limits = policy.route_rate_limits@;
    if is_first_limit(policy, path, i) {
        lemma_route_limit(limits, path, i);
    }
    if forall|j: int|
        0 <= j < limits.len() ==> !text::has_prefix(path, (#[trigger] limits[j]).path_prefix@) {
        lemma_route_limit(limits, path, limits.len() as int);
    }
}

/// A request is reported exactly where the window that its source opened for the route is still
/// open and holds as many requests as the limit allows, or more.
pub proof fn law_over_limit_reported(
    rates: Map<Seq<char>, RecordView>,
    config: AppConfig,
    policy: LivePolicyState,
    path: Seq<char>,
    principal_key: Seq<char>,
    now: u64,
)
    ensures
        ({
            let found = behavior::rate_findings(
                rates,
                config,
                policy,
                path,
                principal_key,
                now,
            );
            let (bucket, limit, window) = types::rate_limit_of(policy, config, path);
            let key = principal_key + "|"@ + bucket;
            let over = rates.dom().contains(key) && match rates[key] {
                RecordView::Rate(s) => window > 0 && now - s.window_start < window * 1_000_000_000
                    && s.count >= limit && limit < u64::MAX,
                _ => false,
            };
            &&& over ==> found.len() == 1 && found[0].rule_id == "rate_limit.exceeded"@
                && found[0].attack_class == AttackClass::RateLimitExceeded && found[0].severity
                == Severity::High && found[0].mode == types::rule_mode_of(
                policy,
                path,
                "rate_limit.exceeded"@,
            )
            &&& !over ==> found.len() == 0
        }),
{
    let (bucket, limit, window) = types::rate_limit_of(policy, config, path);
    assert(window * 1_000_000_000 == window * rate_limit::NANOS);
    assert(window * 1_000_000_000 >= 0);
    assert(window > 0 ==> window * 1_000_000_000 > 0);
    assert(window == 0 ==> window * 1_000_000_000 == 0);
}

/// A source that asks a route several times within one window is reported from the request on that
/// the route's limit no longer allows.
pub proof fn law_requests_beyond_limit_reported(
    rates: Map<Seq<char>, RecordView>,
    config: AppConfig,
    policy: LivePolicyState,
    path: Seq<char>,
    principal_key: Seq<char>,
    times: Seq<u64>,
    now: u64,
    i: int,
)
    requires
        is_first_limit(policy, path, i),
        0 < times.len() < u64::MAX,
        forall|j: int|
            0 < j < times.len() ==> times[0] <= #[trigger] times[j] && times[j] - times[0]
                < policy.route_rate_limits@[i].window_secs * 1_000_000_000,
        times[0] <= now,
        now - times[0] < policy.route_rate_limits@[i].window_secs * 1_000_000_000,
        rate_limit::rate_in(
            rates,
            principal_key + "|"@ + policy.route_rate_limits@[i].path_prefix@,
        ) == rate_limit::rate_after_all(times, policy.route_rate_limits@[i].window_secs),
    ensures
        behavior::rate_findings(rates, config, policy, path, principal_key, now).len() == (
        if times.len() + 1 > policy.route_rate_limits@[i].requests_per_window {
            1int
        } else {
            0
        }),
{
    let l = policy.route_rate_limits@[i];
    law_limit_applies(policy, config, path, i);
    assert forall|j: int| 0 < j < times.len() implies rate_limit::window_open(
        #[trigger] times[j],
        times[0],
        l.window_secs,
    ) by {}
    rate_limit::law_window_limit(times, l.requests_per_window, l.window_secs);
}

/// Who a request is counted for: the tenant and the user of its token, the user alone, the API key,
/// else the source.
pub proof fn law_counted_for(config: AppConfig, context: RequestContext, h: Headers)
    ensures
        ({
            let who = behavior::counted_principal(config, context, h);
            let claims = identity::claims_of(h);
            let sub = if claims is Some {
                json::scalar_of(json::member_of(claims->0, "sub"@))
            } else {
                None
            };
            let tenant = if claims is Some {
                json::scalar_of(json::member_of(claims->0, "tenant_id"@))
            } else {
                None
            };
            let key = headers::field_text(h, config.auth.header_name@);
            &&& sub is Some && tenant is Some ==> who == "tenant_user:"@ + tenant->0 + ":"@ + sub->0
            &&& sub is Some && tenant is None ==> who == "jwt_sub:"@ + sub->0
            &&& sub is None && key is Some ==> who == "api_key:"@ + identity::hashed(key->0)
            &&& sub is None && key is None ==> who == "ip:"@ + context.source_ip@
        }),
{
}

/// Whether an override of the baselines is the first whose prefix a path starts with.
pub open spec fn is_first_override(policy: LivePolicyState, path: Seq<char>, i: int) -> bool {
    let all = policy.route_behavior_overrides@;
    &&& 0 <= i < all.len()
    &&& text::has_prefix(path, all[i].path_prefix@)
    &&& forall|j: int| 0 <= j < i ==> !text::has_prefix(path, (#[trigger] all[j]).path_prefix@)
}

proof fn lemma_override(
    all: Seq<crate::config::RouteBehaviorOverride>,
    path: Seq<char>,
    i: int,
)
    requires
        0 <= i <= all.len(),
        i < all.len() ==> text::has_prefix(path, all[i].path_prefix@),
        forall|j: int| 0 <= j < i ==> !text::has_prefix(path, (#[trigger] all[j]).path_prefix@),
    ensures
        behavior::behavior_override(all, path) == (if i < all.len() {
            Some(all[i])
        } else {
            None
        }),
    decreases all.len(),
{
    if i > 0 {
        let rest = all.drop_first();
        assert(!text::has_prefix(path, all[0].path_prefix@));
        assert forall|j: int| 0 <= j < i - 1 implies !text::has_prefix(
            path,
            (#[trigger] rest[j]).path_prefix@,
        ) by {
            assert(rest[j] == all[j + 1]);
        }
        lemma_override(rest, path, i - 1);
    }
}

/// The first override whose prefix a path starts with sets the samples, the number of objects and
/// the window as far as it names them; the configuration sets the rest.
pub proof fn law_behavior_settings(
    config: AppConfig,
    policy: LivePolicyState,
    path: Seq<char>,
    i: int,
)
    ensures
        is_first_override(policy, path, i) ==> ({
            let o = policy.route_behavior_overrides@[i];
            let (samples, objects, window) = behavior::route_behavior_of(config, policy, path);
            &&& o.warmup_min_samples is Some ==> samples == o.warmup_min_samples->0
            &&& o.warmup_min_samples is None ==> samples == config.behavior.warmup_min_samples
            &&& o.object_enumeration_threshold is Some ==> objects
                == o.object_enumeration_threshold->0
            &&& o.object_enumeration_threshold is None ==> objects
                == config.behavior.object_enumeration_threshold
            &&& o.object_window_secs is Some ==> window == o.object_window_secs->0
            &&& o.object_window_secs is None ==> window == config.behavior.object_window_secs
        }),
        (forall|j: int|
            0 <= j < policy.route_behavior_overrides@.len() ==> !text::has_prefix(
                path,
                (#[trigger] policy.route_behavior_overrides@[j]).path_prefix@,
            )) ==> behavior::route_behavior_of(config, policy, path) == (
            config.behavior.warmup_min_samples,
            config.behavior.object_enumeration_threshold,
            config.behavior.object_window_secs,
        ),
{
    let all = policy.route_behavior_overrides@;
    if is_first_override(policy, path, i) {
        lemma_override(all, path, i);
    }
    if forall|j: int|
        0 <= j < all.len() ==> !text::has_prefix(path, (#[trigger] all[j]).path_prefix@) {
        lemma_override(all, path, all.len() as int);
    }
}

/// A request stands out where its measures do, or where they jump once enough samples were seen;
/// and only then. It is surer of a jump.
pub proof fn law_anomaly_reported(
    policy: LivePolicyState,
    path: Seq<char>,
    sample: BehaviorSampleView,
    reading: BehaviorReading,
)
    ensures
        ({
            let found = behavior::behavior_finding_of(policy, path, sample, reading);
            let jump = (sample.rps_warm && reading.rps_jump) || (sample.body_warm
                && reading.body_jump);
            &&& found is Some == (reading.rps_spike || reading.body_spike || jump)
            &&& found is Some ==> {
                &&& found->0.rule_id == "behavior.anomaly"@
                &&& found->0.attack_class == AttackClass::BehaviorAnomaly
                &&& found->0.severity == Severity::Medium
                &&& found->0.confidence == if jump {
                    840_000i64
                } else {
                    780_000
                }
                &&& found->0.mode == types::rule_mode_of(policy, path, "behavior.anomaly"@)
            }
        }),
{
}

/// What is measured of a request: how many requests its principal made to the route in the last
/// minute with this one, how large its body is, and whether enough samples were seen.
pub proof fn law_sample(
    m: Map<Seq<char>, RecordView>,
    config: AppConfig,
    policy: LivePolicyState,
    context: RequestContext,
    principal_key: Seq<char>,
    now: u64,
)
    requires
        config.behavior.enabled,
    ensures
        ({
            let key = principal_key + "|"@ + routes::route_of(context.path@);
            let before = rate_limit::behavior_in(m, key);
            let (samples, _, window) = behavior::route_behavior_of(config, policy, context.path@);
            let sample = behavior::measured(m, config, policy, context, principal_key, now);
            let after = behavior::request_recorded(
                m,
                config,
                policy,
                context,
                principal_key,
                now,
            );
            &&& sample is Some
            &&& sample->0.key == key
            &&& sample->0.current_rps == (rate_limit::recent_of(before.recent_hits, now, 60).len()
                + 1) as usize
            &&& sample->0.rps_warm == (before.rps.samples >= samples)
            &&& sample->0.body_warm == (before.body.samples >= samples)
            &&& sample->0.body_size == (match context.body_preview {
                Some(b) => text::byte_len_of(b@),
                None => 0,
            }) as usize
            &&& after.dom() == m.dom().insert(key)
            &&& rate_limit::behavior_in(after, key).recent_hits == rate_limit::recent_of(
                before.recent_hits,
                now,
                60,
            ).push(now)
            &&& forall|other: Seq<char>|
                other != key ==> #[trigger] rate_limit::behavior_in(after, other)
                    == rate_limit::behavior_in(m, other)
        }),
{
}

/// How many different texts a list holds.
pub open spec fn different(s: Seq<Seq<char>>) -> nat {
    s.to_set().len()
}

proof fn lemma_different(s: Seq<Seq<char>>)
    ensures
        text::distinct_of(s).len() == different(s),
{
    crate::laws::requests::lemma_distinct(s);
    let d = text::distinct_of(s);
    d.unique_seq_to_set();
    assert(d.to_set() =~= s.to_set()) by {
        assert forall|v: Seq<char>| d.to_set().contains(v) == s.to_set().contains(v) by {
            assert(d.contains(v) == s.contains(v));
        }
    }
}

/// A principal that names as many different objects as the threshold says, in this request and in
/// what is remembered of the window, is reported; and only then, and only where it names some.
pub proof fn law_enumeration_reported(
    m: Map<Seq<char>, RecordView>,
    config: AppConfig,
    policy: LivePolicyState,
    context: RequestContext,
    principal_key: Seq<char>,
    now: u64,
)
    ensures
        ({
            let ids = behavior::object_names(context);
            let (_, threshold, window) = behavior::route_behavior_of(
                config,
                policy,
                context.path@,
            );
            let key = principal_key + "|"@ + routes::route_of(context.path@);
            let kept = rate_limit::recent_ids_of(
                rate_limit::behavior_in(m, key).recent_object_ids,
                now,
                window,
            );
            let found = behavior::object_finding_of(
                m,
                config,
                policy,
                context,
                principal_key,
                now,
            );
            let after = behavior::objects_recorded(
                m,
                config,
                policy,
                context,
                principal_key,
                now,
            );
            &&& found is Some == (ids.len() > 0 && different(
                kept.map_values(|x: SeenIdView| x.id) + ids,
            ) >= threshold)
            &&& found is Some ==> {
                &&& found->0.rule_id == "object.enumeration.window"@
                &&& found->0.attack_class == AttackClass::ObjectEnumeration
                &&& found->0.severity == Severity::High
                &&& found->0.mode == types::rule_mode_of(
                    policy,
                    context.path@,
                    "object.enumeration.window"@,
                )
            }
            &&& ids.len() == 0 ==> after == m
            &&& ids.len() > 0 ==> rate_limit::behavior_in(after, key).recent_object_ids == kept
                + ids.map_values(|id: Seq<char>| SeenIdView { at: now, id })
        }),
{
    let ids = behavior::object_names(context);
    let (_, threshold, window) = behavior::route_behavior_of(config, policy, context.path@);
    let key = principal_key + "|"@ + routes::route_of(context.path@);
    let state = rate_limit::behavior_in(m, key);
    let kept = rate_limit::recent_ids_of(state.recent_object_ids, now, window);
    let all = behavior::with_objects(state, ids, now, window).recent_object_ids;
    assert(rate_limit::ids_of(all) =~= kept.map_values(|x: SeenIdView| x.id) + ids);
    lemma_different(rate_limit::ids_of(all));
}

/// Of times in ascending order those that are not too old remain: none of them is older than the
/// window, and every other one is.
pub proof fn law_recent_ids(s: Seq<SeenIdView>, now: u64, secs: u64, x: SeenIdView)
    requires
        forall|i: int, j: int| 0 <= i <= j < s.len() ==> (#[trigger] s[i]).at <= (#[trigger] s[j]).at,
    ensures
        rate_limit::recent_ids_of(s, now, secs).contains(x) == (s.contains(x) && (now <= x.at || now
            - x.at <= secs * 1_000_000_000)),
    decreases s.len(),
{
    assert(secs * 1_000_000_000 == secs * rate_limit::NANOS);
    assert(secs * 1_000_000_000 >= 0);
    if s.len() > 0 && !rate_limit::is_recent(now, s[0].at, secs) {
        let rest = s.drop_first();
        assert forall|i: int, j: int| 0 <= i <= j < rest.len() implies (#[trigger] rest[i]).at <= (
        #[trigger] rest[j]).at by {
            assert(rest[i] == s[i + 1]);
            assert(rest[j] == s[j + 1]);
        }
        law_recent_ids(rest, now, secs, x);
        if s.contains(x) && x != s[0] {
            let i = choose|i: int| 0 <= i < s.len() && s[i] == x;
            assert(rest[i - 1] == x);
        }
        if rest.contains(x) {
            let i = choose|i: int| 0 <= i < rest.len() && rest[i] == x;
            assert(s[i + 1] == x);
        }
    } else if s.len() > 0 {
        if s.contains(x) {
            let i = choose|i: int| 0 <= i < s.len() && s[i] == x;
            assert(s[0].at <= s[i].at);
        }
    }
}

} // verus!
