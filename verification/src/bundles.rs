//! Saved policies: their canonical text, their digests, and what is done with them.

use crate::config::{
    DetectorException, RouteBehaviorOverride, RouteBehaviorOverrideView, RoutePolicyOverride,
    RoutePolicyOverrideView, RouteRateLimitOverride, RouteRateLimitOverrideView, RuleMode,
    RuleModes,
};
use crate::outside;
use crate::records::{
    PolicyBundle, PolicyBundleVerificationResult, PolicyBundleVerificationResultView,
    PolicyBundleView, PolicyDiffResult, PolicyDiffResultView, RestoreRefusalAlert,
    RestoreRefusalAlertView, RestoreRefusalEvent, RestoreRefusalEventView,
};
use crate::table;
use crate::text;
use crate::types::{
    LivePolicyExport, LivePolicyExportView, LivePolicyImportRequest, LivePolicyState, Timestamp,
};
use vstd::prelude::*;
use vstd::utf8;

verus! {

/// The rows with another one put after all rows whose keys are not greater.
pub open spec fn insert_sorted(
    s: Seq<(Seq<char>, Seq<char>)>,
    row: (Seq<char>, Seq<char>),
) -> Seq<(Seq<char>, Seq<char>)>
    decreases s.len(),
{
    if s.len() == 0 {
        seq![row]
    } else if text::less_of(row.0, s.last().0) {
        insert_sorted(s.drop_last(), row).push(s.last())
    } else {
        s.push(row)
    }
}

/// The rows in ascending order of their keys; rows with the same key keep their order.
pub open spec fn sorted_rows(s: Seq<(Seq<char>, Seq<char>)>) -> Seq<(Seq<char>, Seq<char>)>
    decreases s.len(),
{
    if s.len() == 0 {
        Seq::empty()
    } else {
        insert_sorted(sorted_rows(s.drop_last()), s.last())
    }
}

fn insert_row(v: &mut Vec<(String, String)>, key: String, row: String)
    ensures
        final(v).deep_view() == insert_sorted(old(v).deep_view(), (key@, row@)),
{
    let ghost all = v.deep_view();
    let ghost item = (key@, row@);
    let mut p: usize = v.len();
    assert(all.take(p as int) =~= all);
    assert(insert_sorted(all, item) =~= insert_sorted(all.take(p as int), item) + all.skip(
        p as int,
    ));
    while p > 0 && text::less(key.as_str(), v[p - 1].0.as_str())
        invariant
            p <= v@.len(),
            all == v.deep_view(),
            item == (key@, row@),
            insert_sorted(all, item) == insert_sorted(all.take(p as int), item) + all.skip(
                p as int,
            ),
        decreases p,
    {
        assert(all.take(p as int).last() == (v@[p - 1].0@, v@[p - 1].1@));
        assert(all.take(p as int).drop_last() =~= all.take(p - 1));
        let ghost shorter = insert_sorted(all.take(p - 1), item);
        assert(shorter.push(all[p - 1]) + all.skip(p as int) =~= shorter + all.skip(p - 1));
        p = p - 1;
    }
    assert(insert_sorted(all.take(p as int), item) == all.take(p as int).push(item)) by {
        if p > 0 {
            assert(all.take(p as int).last() == (v@[p - 1].0@, v@[p - 1].1@));
        } else {
            assert(all.take(0).push(item) =~= seq![item]);
        }
    }
    v.insert(p, (key, row));
    assert(v.deep_view() =~= all.take(p as int).push(item) + all.skip(p as int));
}

/// The texts of some rows, joined to a list.
pub open spec fn list_text(rows: Seq<Seq<char>>) -> Seq<char> {
    "["@ + text::join_of(rows, ","@) + "]"@
}

/// The second parts of some rows.
pub open spec fn row_texts(s: Seq<(Seq<char>, Seq<char>)>) -> Seq<Seq<char>> {
    s.map_values(|row: (Seq<char>, Seq<char>)| row.1)
}

fn list_of_rows(rows: &Vec<(String, String)>) -> (r: String)
    ensures
        r@ == list_text(row_texts(rows.deep_view())),
{
    let ghost all = rows.deep_view();
    let mut texts: Vec<String> = Vec::new();
    let mut i: usize = 0;
    assert(texts.deep_view() =~= row_texts(all.take(0)));
    while i < rows.len()
        invariant
            i <= rows@.len(),
            all == rows.deep_view(),
            texts.deep_view() == row_texts(all.take(i as int)),
        decreases rows@.len() - i,
    {
        assert(all[i as int] == (rows@[i as int].0@, rows@[i as int].1@));
        text::push_text(&mut texts, rows[i].1.clone());
        i = i + 1;
        assert(texts.deep_view() =~= row_texts(all.take(i as int)));
    }
    assert(all.take(i as int) =~= all);
    let joined = text::join(&texts, ",");
    text::cat3("[", joined.as_str(), "]")
}

pub open spec fn mode_text(mode: RuleMode) -> Seq<char> {
    match mode {
        RuleMode::DetectOnly => "\"detect_only\""@,
        RuleMode::Recommend => "\"recommend\""@,
        RuleMode::Block => "\"block\""@,
    }
}

fn show_mode(mode: RuleMode) -> (r: &'static str)
    ensures
        r@ == mode_text(mode),
{
    match mode {
        RuleMode::DetectOnly => "\"detect_only\"",
        RuleMode::Recommend => "\"recommend\"",
        RuleMode::Block => "\"block\"",
    }
}

/// A rule and its mode.
pub open spec fn rule_text(entry: (Seq<char>, RuleMode)) -> Seq<char> {
    "["@ + outside::json_quoted(entry.0) + ","@ + mode_text(entry.1) + "]"@
}

/// The modes of some rules, which stand in ascending order.
pub open spec fn modes_text(modes: Seq<(Seq<char>, RuleMode)>) -> Seq<char> {
    list_text(modes.map_values(|entry: (Seq<char>, RuleMode)| rule_text(entry)))
}

fn canonical_rule_modes(modes: &RuleModes) -> (r: String)
    ensures
        r@ == modes_text(modes.deep_view()),
{
    let ghost all = modes.deep_view();
    let ghost show = |entry: (Seq<char>, RuleMode)| rule_text(entry);
    let n: usize = modes.len();
    let mut texts: Vec<String> = Vec::new();
    let mut i: usize = 0;
    assert(texts.deep_view() =~= all.take(0).map_values(show));
    while i < n
        invariant
            i <= n,
            n == all.len(),
            all == modes.deep_view(),
            show == (|entry: (Seq<char>, RuleMode)| rule_text(entry)),
            texts.deep_view() == all.take(i as int).map_values(show),
        decreases n - i,
    {
        let key = outside::json_quote(modes.key(i));
        let row = text::cat5("[", key.as_str(), ",", show_mode(*modes.value(i)), "]");
        assert(row@ == show(all[i as int]));
        text::push_text(&mut texts, row);
        i = i + 1;
        assert(texts.deep_view() =~= all.take(i as int).map_values(show));
    }
    assert(all.take(i as int) =~= all);
    let joined = text::join(&texts, ",");
    text::cat3("[", joined.as_str(), "]")
}

pub open spec fn override_row(o: RoutePolicyOverrideView) -> (Seq<char>, Seq<char>) {
    (
        o.path_prefix,
        "{\"path_prefix\":"@ + outside::json_quoted(o.path_prefix) + ",\"rule_modes\":"@
            + modes_text(o.rule_modes) + "}"@,
    )
}

pub open spec fn override_rows(s: Seq<RoutePolicyOverrideView>) -> Seq<(Seq<char>, Seq<char>)> {
    s.map_values(|o: RoutePolicyOverrideView| override_row(o))
}

/// The overrides in ascending order of their prefixes.
pub open spec fn overrides_text(s: Seq<RoutePolicyOverrideView>) -> Seq<char> {
    list_text(row_texts(sorted_rows(override_rows(s))))
}

fn canonical_route_overrides(items: &Vec<RoutePolicyOverride>) -> (r: String)
    ensures
        r@ == overrides_text(items.deep_view()),
{
    let ghost all = override_rows(items.deep_view());
    let mut rows: Vec<(String, String)> = Vec::new();
    let mut i: usize = 0;
    assert(all.take(0) =~= Seq::empty());
    assert(rows.deep_view() =~= Seq::empty());
    while i < items.len()
        invariant
            i <= items@.len(),
            all == override_rows(items.deep_view()),
            rows.deep_view() == sorted_rows(all.take(i as int)),
        decreases items@.len() - i,
    {
        assert(all.take(i + 1).drop_last() =~= all.take(i as int));
        assert(all.take(i + 1).last() == override_row(items@[i as int].deep_view()));
        let key = outside::json_quote(items[i].path_prefix.as_str());
        let modes = canonical_rule_modes(&items[i].rule_modes);
        let row = text::cat5(
            "{\"path_prefix\":",
            key.as_str(),
            ",\"rule_modes\":",
            modes.as_str(),
            "}",
        );
        insert_row(&mut rows, items[i].path_prefix.clone(), row);
        i = i + 1;
    }
    assert(all.take(i as int) =~= all);
    list_of_rows(&rows)
}

pub open spec fn limit_row(o: RouteRateLimitOverrideView) -> (Seq<char>, Seq<char>) {
    (
        o.path_prefix,
        "{\"path_prefix\":"@ + outside::json_quoted(o.path_prefix) + ",\"requests_per_window\":"@
            + text::decimal_of(o.requests_per_window as nat) + ",\"window_secs\":"@
            + text::decimal_of(o.window_secs as nat) + "}"@,
    )
}

pub open spec fn limit_rows(s: Seq<RouteRateLimitOverrideView>) -> Seq<(Seq<char>, Seq<char>)> {
    s.map_values(|o: RouteRateLimitOverrideView| limit_row(o))
}

/// The limits in ascending order of their prefixes.
pub open spec fn limits_text(s: Seq<RouteRateLimitOverrideView>) -> Seq<char> {
    list_text(row_texts(sorted_rows(limit_rows(s))))
}

fn canonical_route_rate_limits(items: &Vec<RouteRateLimitOverride>) -> (r: String)
    ensures
        r@ == limits_text(items.deep_view()),
{
    let ghost all = limit_rows(items.deep_view());
    let mut rows: Vec<(String, String)> = Vec::new();
    let mut i: usize = 0;
    assert(all.take(0) =~= Seq::empty());
    assert(rows.deep_view() =~= Seq::empty());
    while i < items.len()
        invariant
            i <= items@.len(),
            all == limit_rows(items.deep_view()),
            rows.deep_view() == sorted_rows(all.take(i as int)),
        decreases items@.len() - i,
    {
        assert(all.take(i + 1).drop_last() =~= all.take(i as int));
        assert(all.take(i + 1).last() == limit_row(items@[i as int].deep_view()));
        let key = outside::json_quote(items[i].path_prefix.as_str());
        let requests = text::decimal(items[i].requests_per_window as u128);
        let window = text::decimal(items[i].window_secs as u128);
        let start = text::cat4(
            "{\"path_prefix\":",
            key.as_str(),
            ",\"requests_per_window\":",
            requests.as_str(),
        );
        let row = text::cat4(start.as_str(), ",\"window_secs\":", window.as_str(), "}");
        insert_row(&mut rows, items[i].path_prefix.clone(), row);
        i = i + 1;
    }
    assert(all.take(i as int) =~= all);
    list_of_rows(&rows)
}

pub open spec fn count_text(n: Option<nat>) -> Seq<char> {
    match n {
        Some(n) => text::decimal_of(n),
        None => "null"@,
    }
}

pub open spec fn as_count(n: Option<u64>) -> Option<nat> {
    match n {
        Some(n) => Some(n as nat),
        None => None,
    }
}

pub open spec fn size_as_count(n: Option<usize>) -> Option<nat> {
    match n {
        Some(n) => Some(n as nat),
        None => None,
    }
}

fn show_count(n: Option<u64>) -> (r: String)
    ensures
        r@ == count_text(as_count(n)),
{
    match n {
        Some(n) => text::decimal(n as u128),
        None => "null".to_string(),
    }
}

fn show_size(n: Option<usize>) -> (r: String)
    ensures
        r@ == count_text(size_as_count(n)),
{
    match n {
        Some(n) => text::decimal(n as u128),
        None => "null".to_string(),
    }
}

pub open spec fn behavior_row(o: RouteBehaviorOverrideView) -> (Seq<char>, Seq<char>) {
    (
        o.path_prefix,
        "{\"object_enumeration_threshold\":"@ + count_text(
            size_as_count(o.object_enumeration_threshold),
        ) + ",\"object_window_secs\":"@ + count_text(as_count(o.object_window_secs))
            + ",\"path_prefix\":"@ + outside::json_quoted(o.path_prefix)
            + ",\"warmup_min_samples\":"@ + count_text(as_count(o.warmup_min_samples)) + "}"@,
    )
}

pub open spec fn behavior_rows(s: Seq<RouteBehaviorOverrideView>) -> Seq<(Seq<char>, Seq<char>)> {
    s.map_values(|o: RouteBehaviorOverrideView| behavior_row(o))
}

/// The behaviour overrides in ascending order of their prefixes.
pub open spec fn behaviors_text(s: Seq<RouteBehaviorOverrideView>) -> Seq<char> {
    list_text(row_texts(sorted_rows(behavior_rows(s))))
}

fn canonical_route_behavior_overrides(items: &Vec<RouteBehaviorOverride>) -> (r: String)
    ensures
        r@ == behaviors_text(items.deep_view()),
{
    let ghost all = behavior_rows(items.deep_view());
    let mut rows: Vec<(String, String)> = Vec::new();
    let mut i: usize = 0;
    assert(all.take(0) =~= Seq::empty());
    assert(rows.deep_view() =~= Seq::empty());
    while i < items.len()
        invariant
            i <= items@.len(),
            all == behavior_rows(items.deep_view()),
            rows.deep_view() == sorted_rows(all.take(i as int)),
        decreases items@.len() - i,
    {
        assert(all.take(i + 1).drop_last() =~= all.take(i as int));
        assert(all.take(i + 1).last() == behavior_row(items@[i as int].deep_view()));
        let key = outside::json_quote(items[i].path_prefix.as_str());
        let threshold = show_size(items[i].object_enumeration_threshold);
        let window = show_count(items[i].object_window_secs);
        let warmup = show_count(items[i].warmup_min_samples);
        let start = text::cat4(
            "{\"object_enumeration_threshold\":",
            threshold.as_str(),
            ",\"object_window_secs\":",
            window.as_str(),
        );
        let more = text::cat3(start.as_str(), ",\"path_prefix\":", key.as_str());
        let row = text::cat4(more.as_str(), ",\"warmup_min_samples\":", warmup.as_str(), "}");
        insert_row(&mut rows, items[i].path_prefix.clone(), row);
        i = i + 1;
    }
    assert(all.take(i as int) =~= all);
    list_of_rows(&rows)
}

/// The text of a policy on which its digest is taken. Rules and overrides stand in ascending order.
pub open spec fn canonical_text(p: LivePolicyExportView) -> Seq<char> {
    "{\"global_rule_modes\":"@ + modes_text(p.global_rule_modes)
        + ",\"route_behavior_overrides\":"@ + behaviors_text(p.route_behavior_overrides)
        + ",\"route_overrides\":"@ + overrides_text(p.route_overrides)
        + ",\"route_rate_limits\":"@ + limits_text(p.route_rate_limits) + "}"@
}

/// Writes the text of a policy on which its digest is taken.
pub fn canonical_policy(export: &LivePolicyExport) -> (r: String)
    ensures
        r@ == canonical_text(export.deep_view()),
{
    let modes = canonical_rule_modes(&export.global_rule_modes);
    let behaviors = canonical_route_behavior_overrides(&export.route_behavior_overrides);
    let overrides = canonical_route_overrides(&export.route_overrides);
    let limits = canonical_route_rate_limits(&export.route_rate_limits);
    let start = text::cat4(
        "{\"global_rule_modes\":",
        modes.as_str(),
        ",\"route_behavior_overrides\":",
        behaviors.as_str(),
    );
    let more = text::cat3(start.as_str(), ",\"route_overrides\":", overrides.as_str());
    text::cat4(more.as_str(), ",\"route_rate_limits\":", limits.as_str(), "}")
}

/// The digest of a policy: the SHA-256 of its canonical text, in hexadecimal digits.
pub open spec fn digest_of(p: LivePolicyExportView) -> Seq<char> {
    outside::hex_of(outside::sha256_of(utf8::encode_utf8(canonical_text(p))))
}

pub fn compute_live_policy_digest(export: &LivePolicyExport) -> (r: String)
    ensures
        r@ == digest_of(export.deep_view()),
        r@.len() == 64,
{
    let canonical = canonical_policy(export);
    let digest = outside::sha256(canonical.as_str().as_bytes());
    outside::hex_encode(digest.as_slice())
}

/// A copy of the policy in force.
pub open spec fn export_of(policy: LivePolicyState, now: Timestamp) -> LivePolicyExportView {
    LivePolicyExportView {
        exported_at: now,
        version: policy.version,
        previous_version: policy.previous_version,
        policy_mode: policy.policy_mode,
        global_rule_modes: policy.global_rule_modes.deep_view(),
        route_overrides: policy.route_overrides.deep_view(),
        route_rate_limits: policy.route_rate_limits.deep_view(),
        route_behavior_overrides: policy.route_behavior_overrides.deep_view(),
        detector_exceptions: policy.detector_exceptions.deep_view(),
    }
}

pub fn export_live_policy_state(policy: &LivePolicyState, now: Timestamp) -> (r: LivePolicyExport)
    ensures
        r.deep_view() == export_of(*policy, now),
{
    let p = policy.clone();
    LivePolicyExport {
        exported_at: now,
        version: p.version,
        previous_version: p.previous_version,
        policy_mode: p.policy_mode,
        global_rule_modes: p.global_rule_modes,
        route_overrides: p.route_overrides,
        route_rate_limits: p.route_rate_limits,
        route_behavior_overrides: p.route_behavior_overrides,
        detector_exceptions: p.detector_exceptions,
    }
}

/// Replaces rules and overrides of a policy. Mode, exceptions and version stay as they are.
fn replace_rules(
    policy: &mut LivePolicyState,
    global_rule_modes: RuleModes,
    route_overrides: Vec<RoutePolicyOverride>,
    route_rate_limits: Vec<RouteRateLimitOverride>,
    route_behavior_overrides: Vec<RouteBehaviorOverride>,
)
    ensures
        final(policy).version == old(policy).version,
        final(policy).previous_version == old(policy).previous_version,
        final(policy).policy_mode == old(policy).policy_mode,
        final(policy).detector_exceptions == old(policy).detector_exceptions,
        final(policy).updated_at == old(policy).updated_at,
        final(policy).global_rule_modes == global_rule_modes,
        final(policy).route_overrides == route_overrides,
        final(policy).route_rate_limits == route_rate_limits,
        final(policy).route_behavior_overrides == route_behavior_overrides,
{
    policy.global_rule_modes = global_rule_modes;
    policy.route_overrides = route_overrides;
    policy.route_rate_limits = route_rate_limits;
    policy.route_behavior_overrides = route_behavior_overrides;
}

/// Whether a policy has the rules and overrides of another and is otherwise as it was.
pub open spec fn took_rules(
    before: LivePolicyState,
    after: LivePolicyState,
    rules: LivePolicyExportView,
) -> bool {
    &&& after.version == before.version
    &&& after.previous_version == before.previous_version
    &&& after.policy_mode == before.policy_mode
    &&& after.detector_exceptions == before.detector_exceptions
    &&& after.updated_at == before.updated_at
    &&& after.global_rule_modes.deep_view() == rules.global_rule_modes
    &&& after.route_overrides.deep_view() == rules.route_overrides
    &&& after.route_rate_limits.deep_view() == rules.route_rate_limits
    &&& after.route_behavior_overrides.deep_view() == rules.route_behavior_overrides
}

/// Puts rules and overrides that were sent in into force.
pub fn import_live_policy(policy: &mut LivePolicyState, request: LivePolicyImportRequest)
    ensures
        final(policy).version == old(policy).version,
        final(policy).previous_version == old(policy).previous_version,
        final(policy).policy_mode == old(policy).policy_mode,
        final(policy).detector_exceptions == old(policy).detector_exceptions,
        final(policy).updated_at == old(policy).updated_at,
        final(policy).global_rule_modes == request.global_rule_modes,
        final(policy).route_overrides == request.route_overrides,
        final(policy).route_rate_limits == request.route_rate_limits,
        final(policy).route_behavior_overrides == request.route_behavior_overrides,
{
    replace_rules(
        policy,
        request.global_rule_modes,
        request.route_overrides,
        request.route_rate_limits,
        request.route_behavior_overrides,
    );
}

/// The name of a bundle that is saved at some time, in seconds since the Unix epoch.
pub open spec fn bundle_id_of(secs: i64) -> Option<Seq<char>> {
    match outside::compact_utc_time(secs) {
        Some(t) => Some("bundle-"@ + t),
        None => None,
    }
}

/// The name of a bundle that is saved at some time. There is none for a time that has no date.
pub fn make_policy_bundle_id(secs: i64) -> (r: Option<String>)
    ensures
        r.deep_view() == bundle_id_of(secs),
{
    match outside::compact_utc(secs) {
        Some(t) => Some(text::cat2("bundle-", t.as_str())),
        None => None,
    }
}

/// A policy with its digest, as it is saved.
pub open spec fn bundle_of(
    bundle_id: Seq<char>,
    created_by: Seq<char>,
    note: Option<Seq<char>>,
    live_policy: LivePolicyExportView,
    now: Timestamp,
) -> PolicyBundleView {
    PolicyBundleView {
        bundle_id,
        created_at: now,
        created_by,
        note,
        digest_sha256: digest_of(live_policy),
        live_policy,
    }
}

/// Makes the bundle to be saved of the policy in force.
pub fn make_policy_bundle(
    bundle_id: String,
    created_by: String,
    note: Option<String>,
    policy: &LivePolicyState,
    now: Timestamp,
) -> (r: PolicyBundle)
    ensures
        r.deep_view() == bundle_of(
            bundle_id@,
            created_by@,
            note.deep_view(),
            export_of(*policy, now),
            now,
        ),
{
    let live_policy = export_live_policy_state(policy, now);
    let digest_sha256 = compute_live_policy_digest(&live_policy);
    PolicyBundle { bundle_id, created_at: now, created_by, note, digest_sha256, live_policy }
}

/// A bundle as it was read from storage: one that was stored without a digest gets one.
pub open spec fn loaded_of(bundle: PolicyBundleView) -> PolicyBundleView {
    if bundle.digest_sha256.len() == 0 {
        PolicyBundleView { digest_sha256: digest_of(bundle.live_policy), ..bundle }
    } else {
        bundle
    }
}

/// Completes a bundle that was read from storage.
pub fn complete_bundle(bundle: PolicyBundle) -> (r: PolicyBundle)
    ensures
        r.deep_view() == loaded_of(bundle.deep_view()),
{
    if bundle.digest_sha256.as_str().is_empty() {
        let digest_sha256 = compute_live_policy_digest(&bundle.live_policy);
        PolicyBundle {
            bundle_id: bundle.bundle_id,
            created_at: bundle.created_at,
            created_by: bundle.created_by,
            note: bundle.note,
            digest_sha256,
            live_policy: bundle.live_policy,
        }
    } else {
        bundle
    }
}

/// The verdict on a bundle, from its stored digest, the digest of what it holds and the digest of
/// the policy in force.
pub open spec fn verdict_of(
    bundle_id: Seq<char>,
    stored: Seq<char>,
    recomputed: Seq<char>,
    live: Seq<char>,
    now: Timestamp,
) -> PolicyBundleVerificationResultView {
    PolicyBundleVerificationResultView {
        bundle_id,
        verified_at: now,
        stored_digest_sha256: stored,
        recomputed_digest_sha256: recomputed,
        digest_match: stored == recomputed,
        live_policy_digest_sha256: live,
        matches_live_policy: recomputed == live,
    }
}

pub fn judge_bundle(
    bundle_id: &str,
    stored: &str,
    recomputed: String,
    live: String,
    now: Timestamp,
) -> (r: PolicyBundleVerificationResult)
    ensures
        r.deep_view() == verdict_of(bundle_id@, stored@, recomputed@, live@, now),
{
    let digest_match = text::same(stored, recomputed.as_str());
    let matches_live_policy = text::same(recomputed.as_str(), live.as_str());
    PolicyBundleVerificationResult {
        bundle_id: bundle_id.to_string(),
        verified_at: now,
        stored_digest_sha256: stored.to_string(),
        recomputed_digest_sha256: recomputed,
        digest_match,
        live_policy_digest_sha256: live,
        matches_live_policy,
    }
}

pub fn verify_policy_bundle(
    bundle: &PolicyBundle,
    live_policy: &LivePolicyExport,
    now: Timestamp,
) -> (r: PolicyBundleVerificationResult)
    ensures
        r.deep_view() == verdict_of(
            bundle.bundle_id@,
            bundle.digest_sha256@,
            digest_of(bundle.live_policy.deep_view()),
            digest_of(live_policy.deep_view()),
            now,
        ),
{
    let recomputed = compute_live_policy_digest(&bundle.live_policy);
    let live = compute_live_policy_digest(live_policy);
    judge_bundle(bundle.bundle_id.as_str(), bundle.digest_sha256.as_str(), recomputed, live, now)
}

/// Puts the rules of a bundle into force if the digest of what it holds is the stored one. Else
/// nothing changes.
pub fn restore_with_digest(
    policy: &mut LivePolicyState,
    bundle: &PolicyBundle,
    recomputed: &str,
) -> (r: bool)
    ensures
        r == (recomputed@ == bundle.digest_sha256@),
        r ==> took_rules(*old(policy), *final(policy), bundle.live_policy.deep_view()),
        !r ==> *final(policy) == *old(policy),
{
    if !text::same(recomputed, bundle.digest_sha256.as_str()) {
        return false;
    }
    let rules = bundle.live_policy.clone();
    replace_rules(
        policy,
        rules.global_rule_modes,
        rules.route_overrides,
        rules.route_rate_limits,
        rules.route_behavior_overrides,
    );
    true
}

/// Restores a saved policy. A bundle whose digest does not fit is refused, with the digest of what
/// it holds.
pub fn restore_policy_bundle(policy: &mut LivePolicyState, bundle: &PolicyBundle) -> (r: Result<
    (),
    String,
>)
    ensures
        match r {
            Ok(_) => digest_of(bundle.live_policy.deep_view()) == bundle.digest_sha256@
                && took_rules(*old(policy), *final(policy), bundle.live_policy.deep_view()),
            Err(recomputed) => recomputed@ == digest_of(bundle.live_policy.deep_view())
                && recomputed@ != bundle.digest_sha256@ && *final(policy) == *old(policy),
        },
{
    let recomputed = compute_live_policy_digest(&bundle.live_policy);
    if restore_with_digest(policy, bundle, recomputed.as_str()) {
        Ok(())
    } else {
        Err(recomputed)
    }
}

/// What was saved can be restored: the digest of a bundle made of a policy fits what it holds.
pub proof fn law_saved_policy_is_restored(
    bundle_id: Seq<char>,
    created_by: Seq<char>,
    note: Option<Seq<char>>,
    policy: LivePolicyState,
    now: Timestamp,
)
    ensures
        ({
            let bundle = bundle_of(bundle_id, created_by, note, export_of(policy, now), now);
            &&& bundle.digest_sha256 == digest_of(bundle.live_policy)
            &&& bundle.live_policy.global_rule_modes == policy.global_rule_modes.deep_view()
            &&& bundle.live_policy.route_overrides == policy.route_overrides.deep_view()
            &&& bundle.live_policy.route_rate_limits == policy.route_rate_limits.deep_view()
            &&& bundle.live_policy.route_behavior_overrides
                == policy.route_behavior_overrides.deep_view()
        }),
{
}

/// A policy that took the rules of a bundle has the digest of that bundle.
pub proof fn law_restored_policy_has_the_digest(
    before: LivePolicyState,
    after: LivePolicyState,
    rules: LivePolicyExportView,
    now: Timestamp,
)
    requires
        took_rules(before, after, rules),
    ensures
        digest_of(export_of(after, now)) == digest_of(rules),
{
}

/// The severity of a refusal, by how many there were.
pub open spec fn refusal_severity_of(count: usize) -> Seq<char> {
    if count >= 3 {
        "critical"@
    } else {
        "high"@
    }
}

pub fn restore_refusal_severity_for_count(count: usize) -> (r: String)
    ensures
        r@ == refusal_severity_of(count),
{
    if count >= 3 {
        "critical".to_string()
    } else {
        "high".to_string()
    }
}

/// The record of a refused attempt to restore a bundle.
pub fn record_restore_refusal(
    actor: String,
    bundle_id: String,
    reason: String,
    stored_digest_sha256: String,
    recomputed_digest_sha256: String,
    now: Timestamp,
) -> (r: RestoreRefusalEvent)
    ensures
        r.deep_view() == (RestoreRefusalEventView {
            timestamp: now,
            actor: actor@,
            bundle_id: bundle_id@,
            reason: reason@,
            stored_digest_sha256: stored_digest_sha256@,
            recomputed_digest_sha256: recomputed_digest_sha256@,
        }),
{
    RestoreRefusalEvent {
        timestamp: now,
        actor,
        bundle_id,
        reason,
        stored_digest_sha256,
        recomputed_digest_sha256,
    }
}

/// The open alert about a refusal, under an identifier that was never used.
pub fn make_restore_refusal_alert(
    fresh: &str,
    actor: String,
    bundle_id: String,
    reason: String,
    stored_digest_sha256: String,
    recomputed_digest_sha256: String,
    now: Timestamp,
) -> (r: RestoreRefusalAlert)
    ensures
        r.deep_view() == (RestoreRefusalAlertView {
            alert_id: "alert-"@ + fresh@,
            created_at: now,
            bundle_id: bundle_id@,
            severity: "high"@,
            status: "open"@,
            reason: reason@,
            stored_digest_sha256: stored_digest_sha256@,
            recomputed_digest_sha256: recomputed_digest_sha256@,
            latest_actor: actor@,
        }),
{
    RestoreRefusalAlert {
        alert_id: text::cat2("alert-", fresh),
        created_at: now,
        bundle_id,
        severity: "high".to_string(),
        status: "open".to_string(),
        reason,
        stored_digest_sha256,
        recomputed_digest_sha256,
        latest_actor: actor,
    }
}

/// The alert about a refusal of which there were already some for the same bundle.
pub fn escalate_refusal_alert(alert: RestoreRefusalAlert, refusal_count: usize) -> (r:
    RestoreRefusalAlert)
    ensures
        r.deep_view() == (RestoreRefusalAlertView {
            severity: refusal_severity_of(refusal_count),
            ..alert.deep_view()
        }),
{
    let mut alert = alert;
    alert.severity = restore_refusal_severity_for_count(refusal_count);
    alert
}

/// Gives an alert another status in the name of an actor. Where there is no alert nothing is to be
/// stored.
pub fn update_restore_refusal_alert_status(
    found: Option<RestoreRefusalAlert>,
    new_status: &str,
    actor: &str,
) -> (r: Option<RestoreRefusalAlert>)
    ensures
        match r {
            Some(updated) => found is Some && updated.deep_view() == (RestoreRefusalAlertView {
                status: new_status@,
                latest_actor: actor@,
                ..found->0.deep_view()
            }),
            None => found is None,
        },
{
    match found {
        Some(item) => {
            let mut item = item;
            item.status = new_status.to_string();
            item.latest_actor = actor.to_string();
            Some(item)
        },
        None => None,
    }
}

/// Whether no two rows have the same key.
pub open spec fn distinct_rows(s: Seq<(Seq<char>, Seq<char>)>) -> bool {
    forall|i: int, j: int| 0 <= i < j < s.len() ==> (#[trigger] s[i]).0 != (#[trigger] s[j]).0
}

/// Putting a row with a new key in its place is putting it into a table.
proof fn lemma_insert_is_put(s: Seq<(Seq<char>, Seq<char>)>, row: (Seq<char>, Seq<char>))
    requires
        forall|i: int| 0 <= i < s.len() ==> (#[trigger] s[i]).0 != row.0,
    ensures
        0 <= table::rank(s, row.0) <= s.len(),
        insert_sorted(s, row) == s.insert(table::rank(s, row.0), row),
    decreases s.len(),
{
    if s.len() == 0 {
        assert(s.insert(0, row) =~= seq![row]);
    } else {
        let d = s.drop_last();
        text::lemma_less_order(s.last().0, row.0, s.last().0);
        text::lemma_less_order(row.0, s.last().0, row.0);
        assert(s[s.len() - 1].0 != row.0);
        assert forall|i: int| 0 <= i < d.len() implies (#[trigger] d[i]).0 != row.0 by {
            assert(s[i].0 != row.0);
        }
        lemma_insert_is_put(d, row);
        if text::less_of(s.last().0, row.0) {
            assert(s.push(row) =~= s.insert(s.len() as int, row));
        } else {
            let p = table::rank(d, row.0);
            assert(d.insert(p, row).push(s.last()) =~= s.insert(p, row));
        }
    }
}

/// The value under a key, where no two rows have the same key.
proof fn lemma_at_row(s: Seq<(Seq<char>, Seq<char>)>, i: int)
    requires
        distinct_rows(s),
        0 <= i < s.len(),
    ensures
        table::at(s, s[i].0) == Some(s[i].1),
{
    table::lemma_index(s, s[i].0);
    let p = table::index_of(s, s[i].0)->0;
    if p < i {
        assert(s[p].0 != s[i].0);
    } else if i < p {
        assert(s[i].0 != s[p].0);
    }
}

/// Sorted rows with different keys ascend and hold what the rows hold.
proof fn lemma_sorted(s: Seq<(Seq<char>, Seq<char>)>)
    requires
        distinct_rows(s),
    ensures
        table::ascending(sorted_rows(s)),
        forall|key: Seq<char>| #[trigger] table::at(sorted_rows(s), key) == table::at(s, key),
    decreases s.len(),
{
    if s.len() > 0 {
        let d = s.drop_last();
        let row = s.last();
        assert forall|i: int, j: int| 0 <= i < j < d.len() implies (#[trigger] d[i]).0 != (
        #[trigger] d[j]).0 by {
            assert(s[i].0 != s[j].0);
        }
        lemma_sorted(d);
        let before = sorted_rows(d);
        table::lemma_index(before, row.0);
        table::lemma_index(d, row.0);
        assert(table::at(d, row.0) is None) by {
            if table::index_of(d, row.0) is Some {
                let i = table::index_of(d, row.0)->0;
                assert(s[i].0 != s[s.len() - 1].0);
            }
        }
        assert(table::at(before, row.0) == table::at(d, row.0));
        lemma_insert_is_put(before, row);
        assert(sorted_rows(s) == table::put(before, row.0, row.1));
        table::law_put(before, row.0, row.1);
        assert forall|key: Seq<char>| #[trigger]
            table::at(sorted_rows(s), key) == table::at(s, key) by {
            assert(table::at(before, key) == table::at(d, key));
            table::lemma_index(d, key);
            if key == row.0 {
                assert(table::at(s, key) == Some(row.1));
            } else {
                assert(table::at(s, key) == table::at(d, key));
            }
        }
    }
}

/// The same rows with different keys give the same sorted rows.
proof fn lemma_same_rows<A>(a: Seq<A>, b: Seq<A>, f: spec_fn(A) -> (Seq<char>, Seq<char>))
    requires
        forall|x: A| #[trigger] a.contains(x) == b.contains(x),
        distinct_rows(a.map_values(f)),
        distinct_rows(b.map_values(f)),
    ensures
        sorted_rows(a.map_values(f)) == sorted_rows(b.map_values(f)),
{
    let ra = a.map_values(f);
    let rb = b.map_values(f);
    lemma_sorted(ra);
    lemma_sorted(rb);
    assert forall|key: Seq<char>| #[trigger]
        table::at(sorted_rows(ra), key) == table::at(sorted_rows(rb), key) by {
        table::lemma_index(ra, key);
        table::lemma_index(rb, key);
        assert(table::at(sorted_rows(ra), key) == table::at(ra, key));
        assert(table::at(sorted_rows(rb), key) == table::at(rb, key));
        if table::index_of(ra, key) is Some {
            let i = table::index_of(ra, key)->0;
            assert(a.contains(a[i]));
            assert(b.contains(a[i]));
            let j = choose|j: int| 0 <= j < b.len() && b[j] == a[i];
            assert(rb[j] == ra[i]);
            lemma_at_row(rb, j);
            lemma_at_row(ra, i);
        } else if table::index_of(rb, key) is Some {
            let j = table::index_of(rb, key)->0;
            assert(b.contains(b[j]));
            assert(a.contains(b[j]));
            let i = choose|i: int| 0 <= i < a.len() && a[i] == b[j];
            assert(ra[i] == rb[j]);
            assert(ra[i].0 != key);
        }
    }
    table::law_tables_canonical(sorted_rows(ra), sorted_rows(rb));
}

/// The order in which overrides with different prefixes stand does not matter for the digest.
pub proof fn law_digest_ignores_order(p: LivePolicyExportView, q: LivePolicyExportView)
    requires
        p.global_rule_modes == q.global_rule_modes,
        forall|o: RoutePolicyOverrideView| #[trigger]
            p.route_overrides.contains(o) == q.route_overrides.contains(o),
        forall|o: RouteRateLimitOverrideView| #[trigger]
            p.route_rate_limits.contains(o) == q.route_rate_limits.contains(o),
        forall|o: RouteBehaviorOverrideView| #[trigger]
            p.route_behavior_overrides.contains(o) == q.route_behavior_overrides.contains(o),
        distinct_rows(override_rows(p.route_overrides)),
        distinct_rows(override_rows(q.route_overrides)),
        distinct_rows(limit_rows(p.route_rate_limits)),
        distinct_rows(limit_rows(q.route_rate_limits)),
        distinct_rows(behavior_rows(p.route_behavior_overrides)),
        distinct_rows(behavior_rows(q.route_behavior_overrides)),
    ensures
        digest_of(p) == digest_of(q),
{
    let f = |o: RoutePolicyOverrideView| override_row(o);
    assert(override_rows(p.route_overrides) =~= p.route_overrides.map_values(f));
    assert(override_rows(q.route_overrides) =~= q.route_overrides.map_values(f));
    lemma_same_rows(p.route_overrides, q.route_overrides, f);
    let g = |o: RouteRateLimitOverrideView| limit_row(o);
    assert(limit_rows(p.route_rate_limits) =~= p.route_rate_limits.map_values(g));
    assert(limit_rows(q.route_rate_limits) =~= q.route_rate_limits.map_values(g));
    lemma_same_rows(p.route_rate_limits, q.route_rate_limits, g);
    let h = |o: RouteBehaviorOverrideView| behavior_row(o);
    assert(behavior_rows(p.route_behavior_overrides) =~= p.route_behavior_overrides.map_values(h));
    assert(behavior_rows(q.route_behavior_overrides) =~= q.route_behavior_overrides.map_values(h));
    lemma_same_rows(p.route_behavior_overrides, q.route_behavior_overrides, h);
}

fn same_modes(a: &RuleModes, b: &RuleModes) -> (r: bool)
    ensures
        r == (a.deep_view() == b.deep_view()),
{
    let n: usize = a.len();
    if n != b.len() {
        return false;
    }
    let mut i: usize = 0;
    while i < n
        invariant
            i <= n,
            n == a.deep_view().len(),
            n == b.deep_view().len(),
            forall|j: int| 0 <= j < i ==> a.deep_view()[j] == b.deep_view()[j],
        decreases n - i,
    {
        if !text::same(a.key(i), b.key(i)) || *a.value(i) != *b.value(i) {
            assert(a.deep_view()[i as int] != b.deep_view()[i as int]);
            return false;
        }
        i = i + 1;
    }
    assert(a.deep_view() =~= b.deep_view());
    true
}

fn same_option(a: &Option<String>, b: &Option<String>) -> (r: bool)
    ensures
        r == (a.deep_view() == b.deep_view()),
{
    match a {
        Some(x) => match b {
            Some(y) => text::same(x.as_str(), y.as_str()),
            None => false,
        },
        None => b.is_none(),
    }
}

fn same_overrides(a: &Vec<RoutePolicyOverride>, b: &Vec<RoutePolicyOverride>) -> (r: bool)
    ensures
        r == (a.deep_view() == b.deep_view()),
{
    if a.len() != b.len() {
        assert(a.deep_view().len() != b.deep_view().len());
        return false;
    }
    let mut i: usize = 0;
    while i < a.len()
        invariant
            i <= a@.len(),
            a@.len() == b@.len(),
            forall|j: int| 0 <= j < i ==> a.deep_view()[j] == b.deep_view()[j],
        decreases a@.len() - i,
    {
        assert(a.deep_view()[i as int] == a@[i as int].deep_view());
        assert(b.deep_view()[i as int] == b@[i as int].deep_view());
        if !text::same(a[i].path_prefix.as_str(), b[i].path_prefix.as_str()) || !same_modes(
            &a[i].rule_modes,
            &b[i].rule_modes,
        ) {
            assert(a.deep_view()[i as int] != b.deep_view()[i as int]);
            return false;
        }
        i = i + 1;
    }
    assert(a.deep_view() =~= b.deep_view());
    true
}

fn same_limits(a: &Vec<RouteRateLimitOverride>, b: &Vec<RouteRateLimitOverride>) -> (r: bool)
    ensures
        r == (a.deep_view() == b.deep_view()),
{
    if a.len() != b.len() {
        assert(a.deep_view().len() != b.deep_view().len());
        return false;
    }
    let mut i: usize = 0;
    while i < a.len()
        invariant
            i <= a@.len(),
            a@.len() == b@.len(),
            forall|j: int| 0 <= j < i ==> a.deep_view()[j] == b.deep_view()[j],
        decreases a@.len() - i,
    {
        assert(a.deep_view()[i as int] == a@[i as int].deep_view());
        assert(b.deep_view()[i as int] == b@[i as int].deep_view());
        if !text::same(a[i].path_prefix.as_str(), b[i].path_prefix.as_str())
            || a[i].requests_per_window != b[i].requests_per_window || a[i].window_secs
            != b[i].window_secs {
            assert(a.deep_view()[i as int] != b.deep_view()[i as int]);
            return false;
        }
        i = i + 1;
    }
    assert(a.deep_view() =~= b.deep_view());
    true
}

fn same_count(a: Option<u64>, b: Option<u64>) -> (r: bool)
    ensures
        r == (a == b),
{
    match a {
        Some(x) => match b {
            Some(y) => x == y,
            None => false,
        },
        None => b.is_none(),
    }
}

fn same_size(a: Option<usize>, b: Option<usize>) -> (r: bool)
    ensures
        r == (a == b),
{
    match a {
        Some(x) => match b {
            Some(y) => x == y,
            None => false,
        },
        None => b.is_none(),
    }
}

fn same_confidence(a: Option<i64>, b: Option<i64>) -> (r: bool)
    ensures
        r == (a == b),
{
    match a {
        Some(x) => match b {
            Some(y) => x == y,
            None => false,
        },
        None => b.is_none(),
    }
}

fn same_behaviors(a: &Vec<RouteBehaviorOverride>, b: &Vec<RouteBehaviorOverride>) -> (r: bool)
    ensures
        r == (a.deep_view() == b.deep_view()),
{
    if a.len() != b.len() {
        assert(a.deep_view().len() != b.deep_view().len());
        return false;
    }
    let mut i: usize = 0;
    while i < a.len()
        invariant
            i <= a@.len(),
            a@.len() == b@.len(),
            forall|j: int| 0 <= j < i ==> a.deep_view()[j] == b.deep_view()[j],
        decreases a@.len() - i,
    {
        assert(a.deep_view()[i as int] == a@[i as int].deep_view());
        assert(b.deep_view()[i as int] == b@[i as int].deep_view());
        if !text::same(a[i].path_prefix.as_str(), b[i].path_prefix.as_str()) || !same_count(
            a[i].warmup_min_samples,
            b[i].warmup_min_samples,
        ) || !same_size(a[i].object_enumeration_threshold, b[i].object_enumeration_threshold)
            || !same_count(a[i].object_window_secs, b[i].object_window_secs) {
            assert(a.deep_view()[i as int] != b.deep_view()[i as int]);
            return false;
        }
        i = i + 1;
    }
    assert(a.deep_view() =~= b.deep_view());
    true
}

fn same_exceptions(a: &Vec<DetectorException>, b: &Vec<DetectorException>) -> (r: bool)
    ensures
        r == (a.deep_view() == b.deep_view()),
{
    if a.len() != b.len() {
        assert(a.deep_view().len() != b.deep_view().len());
        return false;
    }
    let mut i: usize = 0;
    while i < a.len()
        invariant
            i <= a@.len(),
            a@.len() == b@.len(),
            forall|j: int| 0 <= j < i ==> a.deep_view()[j] == b.deep_view()[j],
        decreases a@.len() - i,
    {
        assert(a.deep_view()[i as int] == a@[i as int].deep_view());
        assert(b.deep_view()[i as int] == b@[i as int].deep_view());
        if !text::same(a[i].detector_id.as_str(), b[i].detector_id.as_str()) || !same_option(
            &a[i].path_prefix,
            &b[i].path_prefix,
        ) || !same_option(&a[i].parameter, &b[i].parameter) || !same_confidence(
            a[i].min_confidence,
            b[i].min_confidence,
        ) || a[i].monitor_only != b[i].monitor_only || !same_option(&a[i].reason, &b[i].reason) {
            assert(a.deep_view()[i as int] != b.deep_view()[i as int]);
            return false;
        }
        i = i + 1;
    }
    assert(a.deep_view() =~= b.deep_view());
    true
}

/// Which parts of two policies differ. The mode of a policy and its detector exceptions are compared
/// but are no change of its rules: only the four parts that a bundle restores count as changes.
pub open spec fn diff_of(
    live: LivePolicyExportView,
    saved: LivePolicyExportView,
    bundle_id: Option<Seq<char>>,
    now: Timestamp,
) -> PolicyDiffResultView {
    let policy_mode_changed = live.policy_mode != saved.policy_mode;
    let global_rule_modes_changed = live.global_rule_modes != saved.global_rule_modes;
    let route_overrides_changed = live.route_overrides != saved.route_overrides;
    let route_rate_limits_changed = live.route_rate_limits != saved.route_rate_limits;
    let route_behavior_overrides_changed = live.route_behavior_overrides
        != saved.route_behavior_overrides;
    let detector_exceptions_changed = live.detector_exceptions != saved.detector_exceptions;
    PolicyDiffResultView {
        compared_at: now,
        bundle_id,
        has_changes: global_rule_modes_changed || route_overrides_changed
            || route_rate_limits_changed || route_behavior_overrides_changed,
        policy_mode_changed,
        global_rule_modes_changed,
        route_overrides_changed,
        route_rate_limits_changed,
        route_behavior_overrides_changed,
        detector_exceptions_changed,
    }
}

pub fn compute_policy_diff(
    live: &LivePolicyExport,
    saved: &LivePolicyExport,
    bundle_id: Option<String>,
    now: Timestamp,
) -> (r: PolicyDiffResult)
    ensures
        r.deep_view() == diff_of(live.deep_view(), saved.deep_view(), bundle_id.deep_view(), now),
{
    let policy_mode_changed = live.policy_mode != saved.policy_mode;
    let global_rule_modes_changed = !same_modes(
        &live.global_rule_modes,
        &saved.global_rule_modes,
    );
    let route_overrides_changed = !same_overrides(&live.route_overrides, &saved.route_overrides);
    let route_rate_limits_changed = !same_limits(
        &live.route_rate_limits,
        &saved.route_rate_limits,
    );
    let route_behavior_overrides_changed = !same_behaviors(
        &live.route_behavior_overrides,
        &saved.route_behavior_overrides,
    );
    let detector_exceptions_changed = !same_exceptions(
        &live.detector_exceptions,
        &saved.detector_exceptions,
    );
    PolicyDiffResult {
        compared_at: now,
        bundle_id,
        has_changes: global_rule_modes_changed || route_overrides_changed
            || route_rate_limits_changed || route_behavior_overrides_changed,
        policy_mode_changed,
        global_rule_modes_changed,
        route_overrides_changed,
        route_rate_limits_changed,
        route_behavior_overrides_changed,
        detector_exceptions_changed,
    }
}

/// The difference to the latest saved policy; none is reported where nothing was saved.
pub open spec fn latest_diff_of(
    live: LivePolicyExportView,
    latest: Option<PolicyBundleView>,
    now: Timestamp,
) -> PolicyDiffResultView {
    match latest {
        Some(bundle) => diff_of(live, bundle.live_policy, Some(bundle.bundle_id), now),
        None => PolicyDiffResultView {
            compared_at: now,
            bundle_id: None,
            has_changes: false,
            policy_mode_changed: false,
            global_rule_modes_changed: false,
            route_overrides_changed: false,
            route_rate_limits_changed: false,
            route_behavior_overrides_changed: false,
            detector_exceptions_changed: false,
        },
    }
}

pub fn latest_policy_diff(
    live: &LivePolicyExport,
    latest: Option<&PolicyBundle>,
    now: Timestamp,
) -> (r: PolicyDiffResult)
    ensures
        r.deep_view() == latest_diff_of(live.deep_view(), latest.deep_view(), now),
{
    match latest {
        Some(bundle) => compute_policy_diff(
            live,
            &bundle.live_policy,
            Some(bundle.bundle_id.clone()),
            now,
        ),
        None => PolicyDiffResult {
            compared_at: now,
            bundle_id: None,
            has_changes: false,
            policy_mode_changed: false,
            global_rule_modes_changed: false,
            route_overrides_changed: false,
            route_rate_limits_changed: false,
            route_behavior_overrides_changed: false,
            detector_exceptions_changed: false,
        },
    }
}

/// Two policies without changes between them have the same digest.
pub proof fn law_no_changes_same_digest(
    live: LivePolicyExportView,
    saved: LivePolicyExportView,
    bundle_id: Option<Seq<char>>,
    now: Timestamp,
)
    requires
        !diff_of(live, saved, bundle_id, now).has_changes,
    ensures
        digest_of(live) == digest_of(saved),
{
}

/// A policy that took the rules of another shows no changes against it.
pub proof fn law_restored_policy_has_no_changes(
    before: LivePolicyState,
    after: LivePolicyState,
    rules: LivePolicyExportView,
    bundle_id: Option<Seq<char>>,
    exported_at: Timestamp,
    now: Timestamp,
)
    requires
        took_rules(before, after, rules),
    ensures
        !diff_of(export_of(after, exported_at), rules, bundle_id, now).has_changes,
{
}

/// The name of the rule that marks a bundle which was changed on purpose.
pub const TAMPER_MARKER: &'static str = "phase14.tamper.marker";

/// A bundle changed on purpose, to try out the checks: another note and another rule under the old
/// digest.
pub open spec fn tampered_of(
    bundle: PolicyBundleView,
    note: Option<Seq<char>>,
) -> PolicyBundleView {
    PolicyBundleView {
        note: Some(
            match note {
                Some(n) => n,
                None => "tampered bundle for integrity testing"@,
            },
        ),
        live_policy: LivePolicyExportView {
            global_rule_modes: table::put(
                bundle.live_policy.global_rule_modes,
                TAMPER_MARKER@,
                RuleMode::DetectOnly,
            ),
            ..bundle.live_policy
        },
        ..bundle
    }
}

pub fn tamper_policy_bundle(bundle: PolicyBundle, note: Option<String>) -> (r: PolicyBundle)
    ensures
        r.deep_view() == tampered_of(bundle.deep_view(), note.deep_view()),
{
    let mut bundle = bundle;
    let new_note = match note {
        Some(n) => n,
        None => "tampered bundle for integrity testing".to_string(),
    };
    bundle.note = Some(new_note);
    let mut modes = bundle.live_policy.global_rule_modes.clone();
    modes.insert(TAMPER_MARKER.to_string(), RuleMode::DetectOnly);
    bundle.live_policy.global_rule_modes = modes;
    bundle
}

} // verus!
