//! Evaluation of a request against the limits and the history of who makes it.

use crate::config::{AppConfig, RouteBehaviorOverride};
use crate::detection::detectors;
use crate::headers::Headers;
use crate::identity;
use crate::rate_limit;
use crate::rate_limit::RateLimiter;
use crate::routes;
use crate::store::{Baseline, BehaviorStateView, RecordView, SeenId, SeenIdView};
use crate::text;
use crate::types;
use crate::types::{
    AttackClass, Finding, FindingEvidenceView, FindingView, LivePolicyState, RequestContext,
    Severity,
};
use vstd::prelude::*;

verus! {

/// The first override whose prefix a path has.
pub open spec fn behavior_override(
    overrides: Seq<RouteBehaviorOverride>,
    path: Seq<char>,
) -> Option<RouteBehaviorOverride>
    decreases overrides.len(),
{
    if overrides.len() == 0 {
        None
    } else if text::has_prefix(path, overrides[0].path_prefix@) {
        Some(overrides[0])
    } else {
        behavior_override(overrides.drop_first(), path)
    }
}

pub open spec fn given_or<T>(v: Option<T>, default: T) -> T {
    match v {
        Some(x) => x,
        None => default,
    }
}

/// The samples needed before anything is judged, the number of identifiers that is too many, and
/// the window in seconds in which identifiers count.
pub open spec fn route_behavior_of(
    config: AppConfig,
    policy: LivePolicyState,
    path: Seq<char>,
) -> (u64, usize, u64) {
    match behavior_override(policy.route_behavior_overrides@, path) {
        Some(o) => (
            given_or(o.warmup_min_samples, config.behavior.warmup_min_samples),
            given_or(o.object_enumeration_threshold, config.behavior.object_enumeration_threshold),
            given_or(o.object_window_secs, config.behavior.object_window_secs),
        ),
        None => (
            config.behavior.warmup_min_samples,
            config.behavior.object_enumeration_threshold,
            config.behavior.object_window_secs,
        ),
    }
}

pub fn resolve_route_behavior(
    config: &AppConfig,
    policy: &LivePolicyState,
    path: &str,
) -> (r: (u64, usize, u64))
    ensures
        r == route_behavior_of(*config, *policy, path@),
{
    let overrides = &policy.route_behavior_overrides;
    let mut i: usize = 0;
    assert(overrides@.skip(0) =~= overrides@);
    while i < overrides.len()
        invariant
            i <= overrides@.len(),
            overrides@ == policy.route_behavior_overrides@,
            behavior_override(overrides@, path@) == behavior_override(
                overrides@.skip(i as int),
                path@,
            ),
        decreases overrides@.len() - i,
    {
        assert(overrides@.skip(i as int)[0] == overrides@[i as int]);
        let route = &overrides[i];
        if text::starts_with(path, route.path_prefix.as_str()) {
            let warmup: u64 = match route.warmup_min_samples {
                Some(x) => x,
                None => config.behavior.warmup_min_samples,
            };
            let threshold: usize = match route.object_enumeration_threshold {
                Some(x) => x,
                None => config.behavior.object_enumeration_threshold,
            };
            let window: u64 = match route.object_window_secs {
                Some(x) => x,
                None => config.behavior.object_window_secs,
            };
            return (warmup, threshold, window);
        }
        assert(overrides@.skip(i as int).drop_first() =~= overrides@.skip(i + 1));
        i = i + 1;
    }
    (
        config.behavior.warmup_min_samples,
        config.behavior.object_enumeration_threshold,
        config.behavior.object_window_secs,
    )
}

pub open spec fn is_hex_or_dash(c: char) -> bool {
    ('0' <= c && c <= '9') || ('a' <= c && c <= 'f') || ('A' <= c && c <= 'F') || c == '-'
}

/// Whether a path segment names an object: a number, or eight or more hexadecimal digits and
/// dashes.
pub open spec fn object_id(s: Seq<char>) -> bool {
    s.len() > 0 && (text::all_digits(s) || (s.len() >= 8 && forall|i: int|
        0 <= i < s.len() ==> is_hex_or_dash(#[trigger] s[i])))
}

pub fn is_object_id(value: &str) -> (r: bool)
    ensures
        r == object_id(value@),
{
    let x = text::chars_of(value);
    if x.len() == 0 {
        return false;
    }
    let mut digits = true;
    let mut hex = true;
    let mut i: usize = 0;
    while i < x.len()
        invariant
            i <= x@.len(),
            x@ == value@,
            digits == (forall|j: int| 0 <= j < i ==> text::is_digit_char(#[trigger] value@[j])),
            hex == (forall|j: int| 0 <= j < i ==> is_hex_or_dash(#[trigger] value@[j])),
        decreases x@.len() - i,
    {
        let c = x[i];
        assert(value@[i as int] == c);
        if !('0' <= c && c <= '9') {
            digits = false;
        }
        if !(('0' <= c && c <= '9') || ('a' <= c && c <= 'f') || ('A' <= c && c <= 'F')
            || c == '-') {
            hex = false;
        }
        i = i + 1;
    }
    digits || (x.len() >= 8 && hex)
}

/// The segments that name objects.
pub open spec fn segment_ids(parts: Seq<Seq<char>>) -> Seq<Seq<char>>
    decreases parts.len(),
{
    if parts.len() == 0 {
        Seq::empty()
    } else {
        let before = segment_ids(parts.drop_last());
        if object_id(parts.last()) {
            before.push(parts.last())
        } else {
            before
        }
    }
}

/// The value of a parameter that names an object, as it stands in the query.
pub open spec fn pair_id(pair: Seq<char>) -> Option<Seq<char>> {
    let (key, value) = text::split_once_of(pair, '=');
    if text::has_suffix(text::lower_of(key), "id"@) && value is Some && value->0.len() > 0 {
        value
    } else {
        None
    }
}

pub open spec fn pair_ids(pairs: Seq<Seq<char>>) -> Seq<Seq<char>>
    decreases pairs.len(),
{
    if pairs.len() == 0 {
        Seq::empty()
    } else {
        let before = pair_ids(pairs.drop_last());
        match pair_id(pairs.last()) {
            Some(v) => before.push(v),
            None => before,
        }
    }
}

/// The objects that a request names: in the path, in the query, in the body.
pub open spec fn object_names(context: RequestContext) -> Seq<Seq<char>> {
    segment_ids(text::split_of(context.path@, '/')) + (match context.query.deep_view() {
        Some(query) => pair_ids(text::split_of(query, '&')),
        None => Seq::empty(),
    }) + identity::field_ids(context.parsed_body_fields.deep_view())
}

fn collect_segment_ids(parts: &Vec<String>) -> (r: Vec<String>)
    ensures
        r.deep_view() == segment_ids(parts.deep_view()),
{
    let ghost all = parts.deep_view();
    let mut out: Vec<String> = Vec::new();
    let mut i: usize = 0;
    assert(all.take(0) =~= Seq::empty());
    assert(out.deep_view() =~= Seq::empty());
    while i < parts.len()
        invariant
            i <= parts@.len(),
            all == parts.deep_view(),
            out.deep_view() == segment_ids(all.take(i as int)),
        decreases parts@.len() - i,
    {
        assert(all.take(i + 1).drop_last() =~= all.take(i as int));
        assert(all.take(i + 1).last() == parts@[i as int]@);
        if is_object_id(parts[i].as_str()) {
            text::push_text(&mut out, parts[i].clone());
        }
        i = i + 1;
    }
    assert(all.take(i as int) =~= all);
    out
}

fn collect_pair_ids(pairs: &Vec<String>) -> (r: Vec<String>)
    ensures
        r.deep_view() == pair_ids(pairs.deep_view()),
{
    let ghost all = pairs.deep_view();
    let mut out: Vec<String> = Vec::new();
    let mut i: usize = 0;
    assert(all.take(0) =~= Seq::empty());
    assert(out.deep_view() =~= Seq::empty());
    while i < pairs.len()
        invariant
            i <= pairs@.len(),
            all == pairs.deep_view(),
            out.deep_view() == pair_ids(all.take(i as int)),
        decreases pairs@.len() - i,
    {
        assert(all.take(i + 1).drop_last() =~= all.take(i as int));
        assert(all.take(i + 1).last() == pairs@[i as int]@);
        let (key, value) = text::split_once(pairs[i].as_str(), '=');
        let lower = text::to_ascii_lowercase(key.as_str());
        if let Some(v) = value {
            if text::ends_with(lower.as_str(), "id") && !v.as_str().is_empty() {
                text::push_text(&mut out, v);
            }
        }
        i = i + 1;
    }
    assert(all.take(i as int) =~= all);
    out
}

pub fn object_id_candidates(context: &RequestContext) -> (r: Vec<String>)
    ensures
        r.deep_view() == object_names(*context),
{
    let parts = text::split(context.path.as_str(), '/');
    let mut out = collect_segment_ids(&parts);
    let ghost from_path = out.deep_view();
    if let Some(query) = &context.query {
        let pairs = text::split(query.as_str(), '&');
        let more = collect_pair_ids(&pairs);
        text::extend_list(&mut out, more);
    }
    let ghost from_query = out.deep_view();
    assert(from_query =~= from_path + (match context.query.deep_view() {
        Some(query) => pair_ids(text::split_of(query, '&')),
        None => Seq::empty(),
    }));
    let fields = &context.parsed_body_fields;
    let ghost f = fields.deep_view();
    let mut k: usize = 0;
    assert(out.deep_view() =~= from_query + identity::field_ids(f.take(0)));
    while k < fields.len()
        invariant
            k <= fields@.len(),
            f == fields.deep_view(),
            out.deep_view() == from_query + identity::field_ids(f.take(k as int)),
        decreases fields@.len() - k,
    {
        assert(f.take(k + 1).drop_last() =~= f.take(k as int));
        assert(f[k as int] == fields@[k as int].deep_view());
        let lower = text::to_ascii_lowercase(fields[k].key.as_str());
        if text::ends_with(lower.as_str(), "id") {
            text::push_text(&mut out, fields[k].value_preview.clone());
            assert(out.deep_view() =~= from_query + identity::field_ids(f.take(k + 1)));
        }
        k = k + 1;
    }
    assert(f.take(k as int) =~= f);
    out
}

/// The key under which the requests of a principal on a route are kept together.
pub open spec fn history_key(principal_key: Seq<char>, path: Seq<char>) -> Seq<char> {
    principal_key + "|"@ + routes::route_of(path)
}

/// The length of the body of a request in bytes, as far as it was read.
pub open spec fn body_size_of(context: RequestContext) -> nat {
    match context.body_preview.deep_view() {
        Some(b) => text::byte_len_of(b),
        None => 0,
    }
}

/// What is known of a key after a request at `now`, the baselines left as they were.
pub open spec fn observed(
    state: BehaviorStateView,
    now: u64,
    object_window_secs: u64,
) -> BehaviorStateView {
    BehaviorStateView {
        recent_hits: rate_limit::recent_of(
            state.recent_hits,
            now,
            rate_limit::HIT_WINDOW_SECS,
        ).push(now),
        recent_object_ids: rate_limit::recent_ids_of(
            state.recent_object_ids,
            now,
            object_window_secs,
        ),
        ..state
    }
}

/// A request measured against the baselines of its key.
#[derive(Debug)]
pub struct BehaviorSample {
    pub key: String,
    pub route_key: String,
    pub principal_key: String,
    pub rps: Baseline,
    pub body: Baseline,
    pub current_rps: usize,
    pub body_size: usize,
    pub rps_warm: bool,
    pub body_warm: bool,
}

#[verifier::ext_equal]
pub struct BehaviorSampleView {
    pub key: Seq<char>,
    pub route_key: Seq<char>,
    pub principal_key: Seq<char>,
    pub rps: Baseline,
    pub body: Baseline,
    pub current_rps: usize,
    pub body_size: usize,
    pub rps_warm: bool,
    pub body_warm: bool,
}

impl DeepView for BehaviorSample {
    type V = BehaviorSampleView;

    open spec fn deep_view(&self) -> BehaviorSampleView {
        BehaviorSampleView {
            key: self.key@,
            route_key: self.route_key@,
            principal_key: self.principal_key@,
            rps: self.rps,
            body: self.body,
            current_rps: self.current_rps,
            body_size: self.body_size,
            rps_warm: self.rps_warm,
            body_warm: self.body_warm,
        }
    }
}

/// The sample that a request makes, given what is known of its key.
pub open spec fn sample_of(
    config: AppConfig,
    policy: LivePolicyState,
    context: RequestContext,
    principal_key: Seq<char>,
    state: BehaviorStateView,
    now: u64,
) -> BehaviorSampleView {
    let (warmup, _, window) = route_behavior_of(config, policy, context.path@);
    BehaviorSampleView {
        key: history_key(principal_key, context.path@),
        route_key: routes::route_of(context.path@),
        principal_key,
        rps: state.rps,
        body: state.body,
        current_rps: observed(state, now, window).recent_hits.len() as usize,
        body_size: body_size_of(context) as usize,
        rps_warm: state.rps.samples >= warmup,
        body_warm: state.body.samples >= warmup,
    }
}

/// What the statistics say of a sample: how far it is from the means, as text and as judged, and
/// the means and sums of squared deviations with the sample counted, as bit patterns.
#[derive(Debug)]
pub struct BehaviorReading {
    pub rps_spike: bool,
    pub body_spike: bool,
    pub rps_jump: bool,
    pub body_jump: bool,
    pub rps_z: String,
    pub body_z: String,
    pub body_mean: String,
    pub body_stddev: String,
    pub rps_mean_bits: u64,
    pub rps_m2_bits: u64,
    pub body_mean_bits: u64,
    pub body_m2_bits: u64,
}

/// Whether the rate jumped although it never varied: this is judged only after warming up.
pub open spec fn rps_jumped(sample: BehaviorSampleView, reading: BehaviorReading) -> bool {
    sample.rps_warm && reading.rps_jump
}

pub open spec fn body_jumped(sample: BehaviorSampleView, reading: BehaviorReading) -> bool {
    sample.body_warm && reading.body_jump
}

pub open spec fn flag_text(b: bool) -> Seq<char> {
    if b {
        "true"@
    } else {
        "false"@
    }
}

pub(crate) fn show_flag(b: bool) -> (r: &'static str)
    ensures
        r@ == flag_text(b),
{
    if b {
        "true"
    } else {
        "false"
    }
}

/// The finding about a sample that stands out.
pub open spec fn behavior_finding_of(
    policy: LivePolicyState,
    path: Seq<char>,
    sample: BehaviorSampleView,
    reading: BehaviorReading,
) -> Option<FindingView> {
    let rps_jump = rps_jumped(sample, reading);
    let body_jump = body_jumped(sample, reading);
    if reading.rps_spike || reading.body_spike || rps_jump || body_jump {
        Some(
            FindingView {
                rule_id: "behavior.anomaly"@,
                attack_class: AttackClass::BehaviorAnomaly,
                severity: Severity::Medium,
                confidence: if rps_jump || body_jump {
                    840_000
                } else {
                    780_000
                },
                message: "behavior anomaly detected (rps_z="@ + reading.rps_z@ + ", body_z="@
                    + reading.body_z@ + ", zero_var_rps="@ + flag_text(rps_jump)
                    + ", zero_var_body="@ + flag_text(body_jump) + ")"@,
                evidence: seq![
                    FindingEvidenceView {
                        location: "behavior.route"@,
                        value_preview: sample.route_key,
                    },
                    FindingEvidenceView {
                        location: "behavior.principal"@,
                        value_preview: sample.principal_key,
                    },
                    FindingEvidenceView {
                        location: "behavior.body_size"@,
                        value_preview: "current="@ + text::decimal_of(sample.body_size as nat)
                            + ", mean="@ + reading.body_mean@ + ", stddev="@
                            + reading.body_stddev@,
                    },
                ],
                mode: types::rule_mode_of(policy, path, "behavior.anomaly"@),
            },
        )
    } else {
        None
    }
}

/// Builds the finding about a sample that stands out.
pub fn behavior_finding(
    policy: &LivePolicyState,
    path: &str,
    sample: &BehaviorSample,
    reading: &BehaviorReading,
) -> (r: Option<Finding>)
    ensures
        r.deep_view() == behavior_finding_of(*policy, path@, sample.deep_view(), *reading),
{
    let rps_jump = sample.rps_warm && reading.rps_jump;
    let body_jump = sample.body_warm && reading.body_jump;
    if !(reading.rps_spike || reading.body_spike || rps_jump || body_jump) {
        return None;
    }
    let confidence: i64 = if rps_jump || body_jump {
        840_000
    } else {
        780_000
    };
    let scores = text::cat4(
        "behavior anomaly detected (rps_z=",
        reading.rps_z.as_str(),
        ", body_z=",
        reading.body_z.as_str(),
    );
    let flags = text::cat5(
        scores.as_str(),
        ", zero_var_rps=",
        show_flag(rps_jump),
        ", zero_var_body=",
        show_flag(body_jump),
    );
    let message = text::cat2(flags.as_str(), ")");
    let size = text::decimal(sample.body_size as u128);
    let current = text::cat4("current=", size.as_str(), ", mean=", reading.body_mean.as_str());
    let shown = text::cat3(current.as_str(), ", stddev=", reading.body_stddev.as_str());
    let mode = types::resolve_rule_mode(policy, path, "behavior.anomaly");
    let mut finding = types::make_finding(
        "behavior.anomaly",
        AttackClass::BehaviorAnomaly,
        Severity::Medium,
        confidence,
        message.as_str(),
        "behavior.route",
        sample.route_key.as_str(),
        mode,
    );
    types::add_evidence(&mut finding, "behavior.principal", sample.principal_key.as_str());
    types::add_evidence(&mut finding, "behavior.body_size", shown.as_str());
    proof {
        let wanted = behavior_finding_of(*policy, path@, sample.deep_view(), *reading)->0;
        assert(finding.deep_view().evidence =~= wanted.evidence);
        assert(finding.deep_view().message =~= wanted.message);
    }
    Some(finding)
}

/// What is known of a key once a sample is counted in the baselines.
pub open spec fn settled(
    state: BehaviorStateView,
    sample: BehaviorSampleView,
    reading: BehaviorReading,
) -> BehaviorStateView {
    BehaviorStateView {
        rps: Baseline {
            samples: rate_limit::one_more(sample.rps.samples),
            mean_bits: reading.rps_mean_bits,
            m2_bits: reading.rps_m2_bits,
        },
        body: Baseline {
            samples: rate_limit::one_more(sample.body.samples),
            mean_bits: reading.body_mean_bits,
            m2_bits: reading.body_m2_bits,
        },
        ..state
    }
}

/// The identifiers seen at one time.
pub open spec fn seen_at(ids: Seq<Seq<char>>, now: u64) -> Seq<SeenIdView> {
    ids.map_values(|id: Seq<char>| SeenIdView { at: now, id })
}

/// What is known of a key once the objects that a request names are recorded.
pub open spec fn with_objects(
    state: BehaviorStateView,
    ids: Seq<Seq<char>>,
    now: u64,
    window_secs: u64,
) -> BehaviorStateView {
    BehaviorStateView {
        recent_object_ids: rate_limit::recent_ids_of(
            state.recent_object_ids,
            now,
            window_secs,
        ) + seen_at(ids, now),
        ..state
    }
}

/// The finding about a principal that asks for many different objects.
pub open spec fn enumeration_finding_of(
    policy: LivePolicyState,
    path: Seq<char>,
    principal_key: Seq<char>,
    count: nat,
    threshold: usize,
    window_secs: u64,
) -> Option<FindingView> {
    if count >= threshold {
        Some(
            FindingView {
                rule_id: "object.enumeration.window"@,
                attack_class: AttackClass::ObjectEnumeration,
                severity: Severity::High,
                confidence: 820_000,
                message: "high distinct object access volume detected ("@ + text::decimal_of(count)
                    + " unique object IDs / "@ + text::decimal_of(window_secs as nat) + "s)"@,
                evidence: seq![
                    FindingEvidenceView {
                        location: "object.enumeration.principal"@,
                        value_preview: principal_key,
                    },
                    FindingEvidenceView {
                        location: "object.enumeration.count"@,
                        value_preview: text::decimal_of(count),
                    },
                ],
                mode: types::rule_mode_of(policy, path, "object.enumeration.window"@),
            },
        )
    } else {
        None
    }
}

fn enumeration_finding(
    policy: &LivePolicyState,
    path: &str,
    principal_key: &str,
    count: usize,
    threshold: usize,
    window_secs: u64,
) -> (r: Option<Finding>)
    ensures
        r.deep_view() == enumeration_finding_of(
            *policy,
            path@,
            principal_key@,
            count as nat,
            threshold,
            window_secs,
        ),
{
    if count < threshold {
        return None;
    }
    let shown = text::decimal(count as u128);
    let window = text::decimal(window_secs as u128);
    let message = text::cat5(
        "high distinct object access volume detected (",
        shown.as_str(),
        " unique object IDs / ",
        window.as_str(),
        "s)",
    );
    let mode = types::resolve_rule_mode(policy, path, "object.enumeration.window");
    let mut finding = types::make_finding(
        "object.enumeration.window",
        AttackClass::ObjectEnumeration,
        Severity::High,
        820_000,
        message.as_str(),
        "object.enumeration.principal",
        principal_key,
        mode,
    );
    types::add_evidence(&mut finding, "object.enumeration.count", shown.as_str());
    assert(finding.deep_view().evidence =~= enumeration_finding_of(
        *policy,
        path@,
        principal_key@,
        count as nat,
        threshold,
        window_secs,
    )->0.evidence);
    Some(finding)
}

/// The baselines once the objects that a request names are recorded.
pub open spec fn objects_recorded(
    m: Map<Seq<char>, RecordView>,
    config: AppConfig,
    policy: LivePolicyState,
    context: RequestContext,
    principal_key: Seq<char>,
    now: u64,
) -> Map<Seq<char>, RecordView> {
    let ids = object_names(context);
    let (_, _, window) = route_behavior_of(config, policy, context.path@);
    let key = history_key(principal_key, context.path@);
    if ids.len() == 0 {
        m
    } else {
        m.insert(
            key,
            RecordView::Behavior(
                with_objects(rate_limit::behavior_in(m, key), ids, now, window),
            ),
        )
    }
}

/// What is found by recording the objects that a request names.
pub open spec fn object_finding_of(
    m: Map<Seq<char>, RecordView>,
    config: AppConfig,
    policy: LivePolicyState,
    context: RequestContext,
    principal_key: Seq<char>,
    now: u64,
) -> Option<FindingView> {
    let ids = object_names(context);
    let (_, threshold, window) = route_behavior_of(config, policy, context.path@);
    let key = history_key(principal_key, context.path@);
    if ids.len() == 0 {
        None
    } else {
        enumeration_finding_of(
            policy,
            context.path@,
            principal_key,
            rate_limit::distinct_ids_of(
                with_objects(
                    rate_limit::behavior_in(m, key),
                    ids,
                    now,
                    window,
                ).recent_object_ids,
            ),
            threshold,
            window,
        )
    }
}

/// Records the objects that a request names and reports a principal that asks for too many.
pub fn evaluate_object_enumeration(
    limiter: &mut RateLimiter,
    config: &AppConfig,
    policy: &LivePolicyState,
    context: &RequestContext,
    principal_key: &str,
    now: u64,
) -> (r: Option<Finding>)
    ensures
        r.deep_view() == object_finding_of(
            old(limiter).behaviors(),
            *config,
            *policy,
            *context,
            principal_key@,
            now,
        ),
        final(limiter).behaviors() == objects_recorded(
            old(limiter).behaviors(),
            *config,
            *policy,
            *context,
            principal_key@,
            now,
        ),
        final(limiter).rates() == old(limiter).rates(),
{
    let ids = object_id_candidates(context);
    if ids.len() == 0 {
        return None;
    }
    let route_key = routes::security_route(context.path.as_str());
    let (_, threshold, window) = resolve_route_behavior(config, policy, context.path.as_str());
    let key = text::cat3(principal_key, "|", route_key.as_str());
    let mut state = limiter.behavior_of(key.as_str());
    let ghost before = state.deep_view();
    rate_limit::purge_old_object_ids(&mut state.recent_object_ids, now, window);
    let ghost all = ids.deep_view();
    let ghost start = state.recent_object_ids.deep_view();
    let ghost rps = state.rps;
    let ghost body = state.body;
    let ghost hits = state.recent_hits@;
    let mut i: usize = 0;
    assert(start =~= start + seen_at(all.take(0), now));
    while i < ids.len()
        invariant
            i <= ids@.len(),
            all == ids.deep_view(),
            state.recent_object_ids.deep_view() == start + seen_at(all.take(i as int), now),
            state.rps == rps,
            state.body == body,
            state.recent_hits@ == hits,
        decreases ids@.len() - i,
    {
        let ghost so_far = state.recent_object_ids.deep_view();
        let item = SeenId { at: now, id: ids[i].clone() };
        let ghost view = item.deep_view();
        assert(all[i as int] == ids@[i as int]@);
        state.recent_object_ids.push(item);
        assert(state.recent_object_ids.deep_view() =~= so_far.push(view));
        i = i + 1;
        assert(state.recent_object_ids.deep_view() =~= start + seen_at(all.take(i as int), now));
    }
    assert(all.take(i as int) =~= all);
    assert(state.deep_view() =~= with_objects(before, all, now, window));
    let count = rate_limit::count_distinct_ids(&state.recent_object_ids);
    limiter.set_behavior(key, state);
    enumeration_finding(policy, context.path.as_str(), principal_key, count, threshold, window)
}

/// Measures a request against the baselines of its key, where baselines are kept.
pub fn evaluate_behavior(
    limiter: &mut RateLimiter,
    config: &AppConfig,
    policy: &LivePolicyState,
    context: &RequestContext,
    principal_key: &str,
    now: u64,
) -> (r: Option<BehaviorSample>)
    ensures
        r.deep_view() == measured(
            old(limiter).behaviors(),
            *config,
            *policy,
            *context,
            principal_key@,
            now,
        ),
        final(limiter).behaviors() == request_recorded(
            old(limiter).behaviors(),
            *config,
            *policy,
            *context,
            principal_key@,
            now,
        ),
        final(limiter).rates() == old(limiter).rates(),
{
    if !config.behavior.enabled {
        return None;
    }
    let route_key = routes::security_route(context.path.as_str());
    let (warmup, _, window) = resolve_route_behavior(config, policy, context.path.as_str());
    let key = text::cat3(principal_key, "|", route_key.as_str());
    let body_size: usize = match &context.body_preview {
        Some(b) => text::byte_len(b.as_str()),
        None => 0,
    };
    let mut state = limiter.behavior_of(key.as_str());
    let ghost before = state.deep_view();
    rate_limit::purge_old_hits(&mut state.recent_hits, now, rate_limit::HIT_WINDOW_SECS);
    rate_limit::purge_old_object_ids(&mut state.recent_object_ids, now, window);
    state.recent_hits.push(now);
    assert(state.deep_view() =~= observed(before, now, window));
    let sample = BehaviorSample {
        key: key.clone(),
        route_key,
        principal_key: principal_key.to_string(),
        rps: state.rps,
        body: state.body,
        current_rps: state.recent_hits.len(),
        body_size,
        rps_warm: state.rps.samples >= warmup,
        body_warm: state.body.samples >= warmup,
    };
    limiter.set_behavior(key, state);
    Some(sample)
}

/// The sample that a request makes, where baselines are kept.
pub open spec fn measured(
    m: Map<Seq<char>, RecordView>,
    config: AppConfig,
    policy: LivePolicyState,
    context: RequestContext,
    principal_key: Seq<char>,
    now: u64,
) -> Option<BehaviorSampleView> {
    if config.behavior.enabled {
        Some(
            sample_of(
                config,
                policy,
                context,
                principal_key,
                rate_limit::behavior_in(m, history_key(principal_key, context.path@)),
                now,
            ),
        )
    } else {
        None
    }
}

/// The baselines once a request is recorded, where baselines are kept.
pub open spec fn request_recorded(
    m: Map<Seq<char>, RecordView>,
    config: AppConfig,
    policy: LivePolicyState,
    context: RequestContext,
    principal_key: Seq<char>,
    now: u64,
) -> Map<Seq<char>, RecordView> {
    let key = history_key(principal_key, context.path@);
    let (_, _, window) = route_behavior_of(config, policy, context.path@);
    if config.behavior.enabled {
        m.insert(
            key,
            RecordView::Behavior(observed(rate_limit::behavior_in(m, key), now, window)),
        )
    } else {
        m
    }
}

/// Counts a sample in the baselines of its key and reports it where it stands out.
pub fn settle_behavior(
    limiter: &mut RateLimiter,
    policy: &LivePolicyState,
    path: &str,
    sample: &BehaviorSample,
    reading: &BehaviorReading,
) -> (r: Option<Finding>)
    ensures
        r.deep_view() == behavior_finding_of(*policy, path@, sample.deep_view(), *reading),
        final(limiter).behaviors() == old(limiter).behaviors().insert(
            sample.key@,
            RecordView::Behavior(
                settled(
                    rate_limit::behavior_in(old(limiter).behaviors(), sample.key@),
                    sample.deep_view(),
                    *reading,
                ),
            ),
        ),
        final(limiter).rates() == old(limiter).rates(),
{
    let mut state = limiter.behavior_of(sample.key.as_str());
    state.rps = Baseline {
        samples: sample.rps.samples.saturating_add(1),
        mean_bits: reading.rps_mean_bits,
        m2_bits: reading.rps_m2_bits,
    };
    state.body = Baseline {
        samples: sample.body.samples.saturating_add(1),
        mean_bits: reading.body_mean_bits,
        m2_bits: reading.body_m2_bits,
    };
    limiter.set_behavior(sample.key.clone(), state);
    behavior_finding(policy, path, sample, reading)
}

/// The finding about a principal that makes too many requests.
pub open spec fn rate_finding_of(
    policy: LivePolicyState,
    path: Seq<char>,
    bucket: Seq<char>,
    limit: u64,
    window_secs: u64,
    principal_key: Seq<char>,
) -> FindingView {
    FindingView {
        rule_id: "rate_limit.exceeded"@,
        attack_class: AttackClass::RateLimitExceeded,
        severity: Severity::High,
        confidence: 990_000,
        message: "rate limit exceeded for bucket '"@ + bucket + "' ("@ + text::decimal_of(
            limit as nat,
        ) + " requests / "@ + text::decimal_of(window_secs as nat) + " seconds)"@,
        evidence: seq![
            FindingEvidenceView { location: "rate_limit.bucket"@, value_preview: bucket },
            FindingEvidenceView { location: "rate_limit.principal"@, value_preview: principal_key },
        ],
        mode: types::rule_mode_of(policy, path, "rate_limit.exceeded"@),
    }
}

fn rate_finding(
    policy: &LivePolicyState,
    path: &str,
    bucket: &str,
    limit: u64,
    window_secs: u64,
    principal_key: &str,
) -> (r: Finding)
    ensures
        r.deep_view() == rate_finding_of(
            *policy,
            path@,
            bucket@,
            limit,
            window_secs,
            principal_key@,
        ),
{
    let shown_limit = text::decimal(limit as u128);
    let shown_window = text::decimal(window_secs as u128);
    let start = text::cat3("rate limit exceeded for bucket '", bucket, "' (");
    let message = text::cat5(
        start.as_str(),
        shown_limit.as_str(),
        " requests / ",
        shown_window.as_str(),
        " seconds)",
    );
    let mode = types::resolve_rule_mode(policy, path, "rate_limit.exceeded");
    let mut finding = types::make_finding(
        "rate_limit.exceeded",
        AttackClass::RateLimitExceeded,
        Severity::High,
        990_000,
        message.as_str(),
        "rate_limit.bucket",
        bucket,
        mode,
    );
    types::add_evidence(&mut finding, "rate_limit.principal", principal_key);
    proof {
        let wanted = rate_finding_of(
            *policy,
            path@,
            bucket@,
            limit,
            window_secs,
            principal_key@,
        );
        assert(finding.deep_view().evidence =~= wanted.evidence);
        assert(finding.deep_view().message =~= wanted.message);
    }
    finding
}

/// A request counted against the limits, and measured where baselines are kept.
#[derive(Debug)]
pub struct Evaluation {
    pub principal_key: String,
    pub findings: Vec<Finding>,
    pub sample: Option<BehaviorSample>,
}

/// The key under which the requests of a principal count towards a limit.
pub open spec fn rate_key(principal_key: Seq<char>, bucket: Seq<char>) -> Seq<char> {
    principal_key + "|"@ + bucket
}

/// Who makes a request, as the counters know it.
pub open spec fn counted_principal(
    config: AppConfig,
    context: RequestContext,
    h: Headers,
) -> Seq<char> {
    types::rate_limit_key_of(
        identity::principal_of(
            identity::claims_of(h),
            identity::api_key_name(config, h),
            context.source_ip@,
        ),
    )
}

/// The finding about the rate of a request, where it is over the limit.
pub open spec fn rate_findings(
    rates: Map<Seq<char>, RecordView>,
    config: AppConfig,
    policy: LivePolicyState,
    path: Seq<char>,
    principal_key: Seq<char>,
    now: u64,
) -> Seq<FindingView> {
    let (bucket, limit, window) = types::rate_limit_of(policy, config, path);
    let before = rate_limit::rate_in(rates, rate_key(principal_key, bucket));
    if rate_limit::admits(before, now, limit, window) {
        Seq::empty()
    } else {
        seq![rate_finding_of(policy, path, bucket, limit, window, principal_key)]
    }
}

/// Counts a request against the limits and measures it. The evaluation is completed once the
/// statistics on the sample are known.
pub fn evaluate_request_with_headers(
    limiter: &mut RateLimiter,
    config: &AppConfig,
    policy: &LivePolicyState,
    context: &RequestContext,
    headers: &Headers,
    now: u64,
) -> (r: Evaluation)
    ensures
        ({
            let principal_key = counted_principal(*config, *context, *headers);
            let (bucket, limit, window) = types::rate_limit_of(*policy, *config, context.path@);
            let key = rate_key(principal_key, bucket);
            let before = rate_limit::rate_in(old(limiter).rates(), key);
            &&& r.principal_key@ == principal_key
            &&& r.findings.deep_view() == rate_findings(
                old(limiter).rates(),
                *config,
                *policy,
                context.path@,
                principal_key,
                now,
            )
            &&& final(limiter).rates() == old(limiter).rates().insert(
                key,
                RecordView::Rate(rate_limit::rate_after(before, now, window)),
            )
            &&& r.sample.deep_view() == measured(
                old(limiter).behaviors(),
                *config,
                *policy,
                *context,
                principal_key,
                now,
            )
            &&& final(limiter).behaviors() == request_recorded(
                old(limiter).behaviors(),
                *config,
                *policy,
                *context,
                principal_key,
                now,
            )
        }),
{
    let (bucket, limit, window) = types::resolve_rate_limit_for_path(
        policy,
        config,
        context.path.as_str(),
    );
    let principal = identity::derive_principal(config, context, headers);
    let principal_key = principal.as_rate_limit_key();
    let key = text::cat3(principal_key.as_str(), "|", bucket.as_str());
    let allowed = limiter.check(key.as_str(), limit, window, now);
    let mut findings = detectors::no_findings();
    if !allowed {
        let finding = rate_finding(
            policy,
            context.path.as_str(),
            bucket.as_str(),
            limit,
            window,
            principal_key.as_str(),
        );
        types::push_finding(&mut findings, finding);
        assert(findings.deep_view() =~= seq![findings.deep_view()[0]]);
    }
    let sample = evaluate_behavior(
        limiter,
        config,
        policy,
        context,
        principal_key.as_str(),
        now,
    );
    Evaluation { principal_key, findings, sample }
}

/// Evaluates a request of which only the address is known.
pub fn evaluate_request(
    limiter: &mut RateLimiter,
    config: &AppConfig,
    policy: &LivePolicyState,
    context: &RequestContext,
    now: u64,
) -> (r: Evaluation)
    ensures
        r.principal_key@ == "ip:"@ + context.source_ip@,
        r.findings.deep_view() == rate_findings(
            old(limiter).rates(),
            *config,
            *policy,
            context.path@,
            "ip:"@ + context.source_ip@,
            now,
        ),
        r.sample.deep_view() == measured(
            old(limiter).behaviors(),
            *config,
            *policy,
            *context,
            "ip:"@ + context.source_ip@,
            now,
        ),
        final(limiter).behaviors() == request_recorded(
            old(limiter).behaviors(),
            *config,
            *policy,
            *context,
            "ip:"@ + context.source_ip@,
            now,
        ),
        final(limiter).rates() == ({
            let (bucket, limit, window) = types::rate_limit_of(*policy, *config, context.path@);
            let key = rate_key("ip:"@ + context.source_ip@, bucket);
            let before = rate_limit::rate_in(old(limiter).rates(), key);
            old(limiter).rates().insert(
                key,
                RecordView::Rate(rate_limit::rate_after(before, now, window)),
            )
        }),
{
    let none = Headers::new();
    evaluate_request_with_headers(limiter, config, policy, context, &none, now)
}

/// Completes an evaluation: counts the sample with what the statistics say of it, records the
/// objects that the request names and gives all findings.
pub fn complete_evaluation(
    limiter: &mut RateLimiter,
    config: &AppConfig,
    policy: &LivePolicyState,
    context: &RequestContext,
    evaluation: Evaluation,
    reading: Option<BehaviorReading>,
    now: u64,
) -> (r: Vec<Finding>)
    ensures
        ({
            let path = context.path@;
            let sample = evaluation.sample.deep_view();
            let counted = sample is Some && reading is Some;
            let settled_map = old(limiter).behaviors().insert(
                sample->0.key,
                RecordView::Behavior(
                    settled(
                        rate_limit::behavior_in(old(limiter).behaviors(), sample->0.key),
                        sample->0,
                        reading->0,
                    ),
                ),
            );
            let m = if counted {
                settled_map
            } else {
                old(limiter).behaviors()
            };
            let anomaly = if counted {
                behavior_finding_of(*policy, path, sample->0, reading->0)
            } else {
                None
            };
            let enumeration = object_finding_of(
                m,
                *config,
                *policy,
                *context,
                evaluation.principal_key@,
                now,
            );
            &&& r.deep_view() == evaluation.findings.deep_view() + listed(anomaly) + listed(
                enumeration,
            )
            &&& final(limiter).behaviors() == objects_recorded(
                m,
                *config,
                *policy,
                *context,
                evaluation.principal_key@,
                now,
            )
            &&& final(limiter).rates() == old(limiter).rates()
        }),
{
    let mut findings = evaluation.findings;
    let ghost f0 = findings.deep_view();
    if let Some(sample) = &evaluation.sample {
        if let Some(reading) = &reading {
            let anomaly = settle_behavior(
                limiter,
                policy,
                context.path.as_str(),
                sample,
                reading,
            );
            if let Some(f) = anomaly {
                types::push_finding(&mut findings, f);
            }
        }
    }
    let ghost f1 = findings.deep_view();
    let enumeration = evaluate_object_enumeration(
        limiter,
        config,
        policy,
        context,
        evaluation.principal_key.as_str(),
        now,
    );
    let ghost last = enumeration.deep_view();
    if let Some(f) = enumeration {
        types::push_finding(&mut findings, f);
    }
    assert(findings.deep_view() =~= f1 + listed(last));
    findings
}

/// A list of what is there.
pub open spec fn listed(f: Option<FindingView>) -> Seq<FindingView> {
    match f {
        Some(f) => seq![f],
        None => Seq::empty(),
    }
}

/// While a key is warming up a jump is not reported.
pub proof fn law_quiet_while_warming(
    policy: LivePolicyState,
    path: Seq<char>,
    sample: BehaviorSampleView,
    reading: BehaviorReading,
)
    requires
        !sample.rps_warm,
        !sample.body_warm,
        !reading.rps_spike,
        !reading.body_spike,
    ensures
        behavior_finding_of(policy, path, sample, reading) is None,
{
}

} // verus!
