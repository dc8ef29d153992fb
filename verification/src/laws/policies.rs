//! How policies are changed, saved and compared.

use crate::bundles;
use crate::config::{
    RouteBehaviorOverrideView, RoutePolicyOverrideView, RouteRateLimitOverrideView, RuleMode,
};
use crate::control_plane;
use crate::outside;
use crate::records::PolicyBundleView;
use crate::table;
use crate::text;
use crate::types::{LivePolicyExportView, LivePolicyState, Timestamp};
use vstd::prelude::*;
use vstd::utf8;

verus! {

proof fn lemma_part_of_part(a: Seq<char>, b: Seq<char>, c: Seq<char>)
    requires
        text::has_part(b, c),
        text::has_part(a, b),
    ensures
        text::has_part(a, c),
{
    let i = choose|i: int| text::occurs_at(a, b, i);
    let j = choose|j: int| text::occurs_at(b, c, j);
    assert(a.subrange(i + j, i + j + c.len()) =~= b.subrange(j, j + c.len())) by {
        let whole = a.subrange(i, i + b.len());
        assert(whole.subrange(j, j + c.len()) =~= a.subrange(i + j, i + j + c.len()));
    }
    assert(text::occurs_at(a, c, i + j));
}

proof fn lemma_between(a: Seq<char>, p: Seq<char>, b: Seq<char>)
    ensures
        text::has_part(a + p + b, p),
{
    let all = a + p + b;
    assert(all.subrange(a.len() as int, (a.len() + p.len()) as int) =~= p);
    assert(text::occurs_at(all, p, a.len() as int));
}

proof fn lemma_joined(parts: Seq<Seq<char>>, sep: Seq<char>, i: int)
    requires
        0 <= i < parts.len(),
    ensures
        text::has_part(text::join_of(parts, sep), parts[i]),
    decreases parts.len(),
{
    let all = text::join_of(parts, sep);
    let e = Seq::<char>::empty();
    if parts.len() == 1 {
        lemma_between(e, parts[0], e);
        assert(e + parts[0] + e =~= parts[0]);
    } else if i == parts.len() - 1 {
        let before = text::join_of(parts.drop_last(), sep) + sep;
        lemma_between(before, parts[i], e);
        assert(before + parts[i] + e =~= all);
    } else {
        lemma_joined(parts.drop_last(), sep, i);
        let before = text::join_of(parts.drop_last(), sep);
        lemma_between(e, before, sep + parts.last());
        assert(e + before + (sep + parts.last()) =~= all);
        lemma_part_of_part(all, before, parts[i]);
    }
}

proof fn lemma_listed(rows: Seq<Seq<char>>, i: int)
    requires
        0 <= i < rows.len(),
    ensures
        text::has_part(bundles::list_text(rows), rows[i]),
{
    lemma_joined(rows, ","@, i);
    lemma_between("["@, text::join_of(rows, ","@), "]"@);
    lemma_part_of_part(bundles::list_text(rows), text::join_of(rows, ","@), rows[i]);
}

proof fn lemma_inserted(
    s: Seq<(Seq<char>, Seq<char>)>,
    row: (Seq<char>, Seq<char>),
    x: (Seq<char>, Seq<char>),
)
    ensures
        bundles::insert_sorted(s, row).contains(x) == (s.contains(x) || x == row),
    decreases s.len(),
{
    let all = bundles::insert_sorted(s, row);
    if s.len() == 0 {
        assert(all[0] == row);
    } else if text::less_of(row.0, s.last().0) {
        let some = bundles::insert_sorted(s.drop_last(), row);
        lemma_inserted(s.drop_last(), row, x);
        lemma_pushed(some, s.last(), x);
        lemma_pushed(s.drop_last(), s.last(), x);
        assert(s.drop_last().push(s.last()) =~= s);
    } else {
        lemma_pushed(s, row, x);
    }
}

proof fn lemma_pushed(
    s: Seq<(Seq<char>, Seq<char>)>,
    last: (Seq<char>, Seq<char>),
    x: (Seq<char>, Seq<char>),
)
    ensures
        s.push(last).contains(x) == (s.contains(x) || x == last),
{
    let t = s.push(last);
    assert(t[s.len() as int] == last);
    if s.contains(x) {
        let i = choose|i: int| 0 <= i < s.len() && s[i] == x;
        assert(t[i] == x);
    }
    if t.contains(x) {
        let i = choose|i: int| 0 <= i < t.len() && t[i] == x;
        if i < s.len() {
            assert(s[i] == x);
        }
    }
}

proof fn lemma_sorted(s: Seq<(Seq<char>, Seq<char>)>, x: (Seq<char>, Seq<char>))
    ensures
        bundles::sorted_rows(s).contains(x) == s.contains(x),
        bundles::sorted_rows(s).len() == s.len(),
    decreases s.len(),
{
    if s.len() > 0 {
        lemma_sorted(s.drop_last(), x);
        lemma_inserted(bundles::sorted_rows(s.drop_last()), s.last(), x);
        lemma_pushed(s.drop_last(), s.last(), x);
        assert(s.drop_last().push(s.last()) =~= s);
        lemma_inserted_len(bundles::sorted_rows(s.drop_last()), s.last());
    }
}

proof fn lemma_inserted_len(s: Seq<(Seq<char>, Seq<char>)>, row: (Seq<char>, Seq<char>))
    ensures
        bundles::insert_sorted(s, row).len() == s.len() + 1,
    decreases s.len(),
{
    if s.len() > 0 && text::less_of(row.0, s.last().0) {
        lemma_inserted_len(s.drop_last(), row);
    }
}

proof fn lemma_row_listed(rows: Seq<(Seq<char>, Seq<char>)>, i: int)
    requires
        0 <= i < rows.len(),
    ensures
        text::has_part(
            bundles::list_text(bundles::row_texts(bundles::sorted_rows(rows))),
            rows[i].1,
        ),
{
    let sorted = bundles::sorted_rows(rows);
    lemma_sorted(rows, rows[i]);
    assert(rows.contains(rows[i]));
    let j = choose|j: int| 0 <= j < sorted.len() && sorted[j] == rows[i];
    let texts = bundles::row_texts(sorted);
    assert(texts[j] == rows[i].1);
    lemma_listed(texts, j);
}

/// The name of a mode as it is written.
pub open spec fn written(mode: RuleMode) -> Seq<char> {
    if mode == RuleMode::Block {
        "\"block\""@
    } else if mode == RuleMode::Recommend {
        "\"recommend\""@
    } else {
        "\"detect_only\""@
    }
}

proof fn lemma_modes(modes: Seq<(Seq<char>, RuleMode)>, i: int)
    requires
        0 <= i < modes.len(),
    ensures
        text::has_part(
            bundles::modes_text(modes),
            "["@ + outside::json_quoted(modes[i].0) + ","@ + written(modes[i].1) + "]"@,
        ),
{
    let rows = modes.map_values(|entry: (Seq<char>, RuleMode)| bundles::rule_text(entry));
    assert(rows[i] == bundles::rule_text(modes[i]));
    lemma_listed(rows, i);
}

/// The four parts of the text of which a policy's digest is made.
proof fn lemma_sections(p: LivePolicyExportView)
    ensures
        text::has_part(bundles::canonical_text(p), bundles::modes_text(p.global_rule_modes)),
        text::has_part(
            bundles::canonical_text(p),
            bundles::behaviors_text(p.route_behavior_overrides),
        ),
        text::has_part(bundles::canonical_text(p), bundles::overrides_text(p.route_overrides)),
        text::has_part(bundles::canonical_text(p), bundles::limits_text(p.route_rate_limits)),
{
    let all = bundles::canonical_text(p);
    let m = bundles::modes_text(p.global_rule_modes);
    let b = bundles::behaviors_text(p.route_behavior_overrides);
    let o = bundles::overrides_text(p.route_overrides);
    let l = bundles::limits_text(p.route_rate_limits);
    let h = "{\"global_rule_modes\":"@;
    let i = ",\"route_behavior_overrides\":"@;
    let j = ",\"route_overrides\":"@;
    let k = ",\"route_rate_limits\":"@;
    let e = "}"@;
    lemma_between(h, m, i + b + j + o + k + l + e);
    assert(h + m + (i + b + j + o + k + l + e) =~= all);
    lemma_between(h + m + i, b, j + o + k + l + e);
    assert((h + m + i) + b + (j + o + k + l + e) =~= all);
    lemma_between(h + m + i + b + j, o, k + l + e);
    assert((h + m + i + b + j) + o + (k + l + e) =~= all);
    lemma_between(h + m + i + b + j + o + k, l, e);
    assert((h + m + i + b + j + o + k) + l + e =~= all);
}

/// The text of which the digest of a policy is made says everything that a bundle restores: every
/// global mode, every rule of every route, every limit with its numbers, every setting of the
/// baselines.
pub proof fn law_digest_covers(p: LivePolicyExportView, i: int, j: int)
    ensures
        ({
            let all = bundles::canonical_text(p);
            &&& bundles::digest_of(p) == outside::hex_of(
                outside::sha256_of(utf8::encode_utf8(all)),
            )
            &&& 0 <= i < p.global_rule_modes.len() ==> text::has_part(
                all,
                "["@ + outside::json_quoted(p.global_rule_modes[i].0) + ","@ + written(
                    p.global_rule_modes[i].1,
                ) + "]"@,
            )
            &&& 0 <= i < p.route_rate_limits.len() ==> {
                let o = p.route_rate_limits[i];
                text::has_part(
                    all,
                    "{\"path_prefix\":"@ + outside::json_quoted(o.path_prefix)
                        + ",\"requests_per_window\":"@ + text::decimal_of(
                        o.requests_per_window as nat,
                    ) + ",\"window_secs\":"@ + text::decimal_of(o.window_secs as nat) + "}"@,
                )
            }
            &&& 0 <= i < p.route_overrides.len() ==> {
                let o = p.route_overrides[i];
                &&& text::has_part(
                    all,
                    "{\"path_prefix\":"@ + outside::json_quoted(o.path_prefix)
                        + ",\"rule_modes\":"@ + bundles::modes_text(o.rule_modes) + "}"@,
                )
                &&& 0 <= j < o.rule_modes.len() ==> text::has_part(
                    bundles::modes_text(o.rule_modes),
                    "["@ + outside::json_quoted(o.rule_modes[j].0) + ","@ + written(
                        o.rule_modes[j].1,
                    ) + "]"@,
                )
            }
            &&& 0 <= i < p.route_behavior_overrides.len() ==> {
                let o = p.route_behavior_overrides[i];
                let number = |n: Option<nat>|
                    match n {
                        Some(n) => text::decimal_of(n),
                        None => "null"@,
                    };
                text::has_part(
                    all,
                    "{\"object_enumeration_threshold\":"@ + number(
                        match o.object_enumeration_threshold {
                            Some(n) => Some(n as nat),
                            None => None,
                        },
                    ) + ",\"object_window_secs\":"@ + number(
                        match o.object_window_secs {
                            Some(n) => Some(n as nat),
                            None => None,
                        },
                    ) + ",\"path_prefix\":"@ + outside::json_quoted(o.path_prefix)
                        + ",\"warmup_min_samples\":"@ + number(
                        match o.warmup_min_samples {
                            Some(n) => Some(n as nat),
                            None => None,
                        },
                    ) + "}"@,
                )
            }
        }),
{
    let all = bundles::canonical_text(p);
    lemma_sections(p);
    if 0 <= i < p.global_rule_modes.len() {
        lemma_modes(p.global_rule_modes, i);
        lemma_part_of_part(
            all,
            bundles::modes_text(p.global_rule_modes),
            "["@ + outside::json_quoted(p.global_rule_modes[i].0) + ","@ + written(
                p.global_rule_modes[i].1,
            ) + "]"@,
        );
    }
    if 0 <= i < p.route_rate_limits.len() {
        let rows = bundles::limit_rows(p.route_rate_limits);
        assert(rows[i] == bundles::limit_row(p.route_rate_limits[i]));
        lemma_row_listed(rows, i);
        lemma_part_of_part(all, bundles::limits_text(p.route_rate_limits), rows[i].1);
    }
    if 0 <= i < p.route_overrides.len() {
        let rows = bundles::override_rows(p.route_overrides);
        assert(rows[i] == bundles::override_row(p.route_overrides[i]));
        lemma_row_listed(rows, i);
        lemma_part_of_part(all, bundles::overrides_text(p.route_overrides), rows[i].1);
        if 0 <= j < p.route_overrides[i].rule_modes.len() {
            lemma_modes(p.route_overrides[i].rule_modes, j);
        }
    }
    if 0 <= i < p.route_behavior_overrides.len() {
        let rows = bundles::behavior_rows(p.route_behavior_overrides);
        assert(rows[i] == bundles::behavior_row(p.route_behavior_overrides[i]));
        lemma_row_listed(rows, i);
        lemma_part_of_part(all, bundles::behaviors_text(p.route_behavior_overrides), rows[i].1);
    }
}

/// What is exported of a policy is the policy.
pub proof fn law_exported(policy: LivePolicyState, now: Timestamp)
    ensures
        ({
            let e = bundles::export_of(policy, now);
            &&& e.exported_at == now
            &&& e.version == policy.version && e.previous_version == policy.previous_version
            &&& e.policy_mode == policy.policy_mode
            &&& e.global_rule_modes == policy.global_rule_modes.deep_view()
            &&& e.route_overrides == policy.route_overrides.deep_view()
            &&& e.route_rate_limits == policy.route_rate_limits.deep_view()
            &&& e.route_behavior_overrides == policy.route_behavior_overrides.deep_view()
            &&& e.detector_exceptions == policy.detector_exceptions.deep_view()
        }),
{
}

/// A bundle that was changed after it was made is found out unless the digests are the same; the
/// one that is live is told by its digest.
pub proof fn law_bundle_checked(
    bundle_id: Seq<char>,
    stored: Seq<char>,
    recomputed: Seq<char>,
    live: Seq<char>,
    now: Timestamp,
)
    ensures
        ({
            let v = bundles::verdict_of(bundle_id, stored, recomputed, live, now);
            &&& v.bundle_id == bundle_id && v.verified_at == now
            &&& v.digest_match <==> stored == recomputed
            &&& v.matches_live_policy <==> live == recomputed
            &&& v.stored_digest_sha256 == stored && v.recomputed_digest_sha256 == recomputed
            &&& v.live_policy_digest_sha256 == live
        }),
{
}

/// A bundle is saved with its own digest; one without a digest gets it when it is loaded, and one
/// with a digest keeps it.
pub proof fn law_bundle_digest(
    bundle: PolicyBundleView,
    bundle_id: Seq<char>,
    created_by: Seq<char>,
    note: Option<Seq<char>>,
    live: LivePolicyExportView,
    now: Timestamp,
)
    ensures
        ({
            let b = bundles::bundle_of(bundle_id, created_by, note, live, now);
            &&& b.bundle_id == bundle_id && b.created_by == created_by && b.note == note
            &&& b.created_at == now && b.live_policy == live
            &&& b.digest_sha256 == bundles::digest_of(live)
        }),
        bundle.digest_sha256.len() > 0 ==> bundles::loaded_of(bundle) == bundle,
        bundle.digest_sha256.len() == 0 ==> bundles::loaded_of(bundle).digest_sha256
            == bundles::digest_of(bundle.live_policy) && bundles::loaded_of(bundle).live_policy
            == bundle.live_policy,
{
}

/// Refusing to restore is critical from the third time on.
pub proof fn law_refusals_escalate(count: usize)
    ensures
        count < 3 ==> bundles::refusal_severity_of(count) == "high"@,
        count >= 3 ==> bundles::refusal_severity_of(count) == "critical"@,
{
}

/// Two policies differ in a part where the part differs; they have changes where one of the four
/// parts that a bundle restores does.
pub proof fn law_changes_found(
    live: LivePolicyExportView,
    saved: LivePolicyExportView,
    bundle_id: Option<Seq<char>>,
    now: Timestamp,
)
    ensures
        ({
            let d = bundles::diff_of(live, saved, bundle_id, now);
            &&& d.bundle_id == bundle_id && d.compared_at == now
            &&& !d.has_changes <==> live.global_rule_modes == saved.global_rule_modes
                && live.route_overrides == saved.route_overrides && live.route_rate_limits
                == saved.route_rate_limits && live.route_behavior_overrides
                == saved.route_behavior_overrides
            &&& d.policy_mode_changed <==> live.policy_mode != saved.policy_mode
            &&& d.global_rule_modes_changed <==> live.global_rule_modes != saved.global_rule_modes
            &&& d.route_overrides_changed <==> live.route_overrides != saved.route_overrides
            &&& d.route_rate_limits_changed <==> live.route_rate_limits != saved.route_rate_limits
            &&& d.route_behavior_overrides_changed <==> live.route_behavior_overrides
                != saved.route_behavior_overrides
            &&& d.detector_exceptions_changed <==> live.detector_exceptions
                != saved.detector_exceptions
        }),
        ({
            let none = bundles::latest_diff_of(live, None, now);
            !none.has_changes && none.bundle_id is None
        }),
{
}

/// A bundle that is changed on purpose has another note and one rule more, and keeps the digest that
/// it had.
pub proof fn law_tampered(bundle: PolicyBundleView, note: Option<Seq<char>>, rule_id: Seq<char>)
    requires
        table::ascending(bundle.live_policy.global_rule_modes),
    ensures
        ({
            let t = bundles::tampered_of(bundle, note);
            &&& t.digest_sha256 == bundle.digest_sha256 && t.bundle_id == bundle.bundle_id
            &&& note is Some ==> t.note == note
            &&& t.live_policy.route_rate_limits == bundle.live_policy.route_rate_limits
            &&& table::at(t.live_policy.global_rule_modes, rule_id) == (if rule_id
                == "phase14.tamper.marker"@ {
                Some(RuleMode::DetectOnly)
            } else {
                table::at(bundle.live_policy.global_rule_modes, rule_id)
            })
        }),
{
    table::law_put(
        bundle.live_policy.global_rule_modes,
        "phase14.tamper.marker"@,
        RuleMode::DetectOnly,
    );
}

/// Deleting under a key takes away what has that key, in order, and nothing else.
pub proof fn law_deleted<A>(s: Seq<A>, key: spec_fn(A) -> Seq<char>, k: Seq<char>)
    ensures
        control_plane::without(s, key, k) == s.filter(|x: A| key(x) != k),
        control_plane::key_index(s, key, k) is Some <==> exists|i: int|
            0 <= i < s.len() && key(#[trigger] s[i]) == k,
    decreases s.len(),
{
    reveal(Seq::filter);
    let keep = |x: A| key(x) != k;
    if s.len() > 0 {
        let before = s.drop_last();
        law_deleted(before, key, k);
        assert(forall|i: int| 0 <= i < before.len() ==> #[trigger] before[i] == s[i]);
        assert(s.last() == s[s.len() - 1]);
        if exists|i: int| 0 <= i < before.len() && key(#[trigger] before[i]) == k {
            let i = choose|i: int| 0 <= i < before.len() && key(#[trigger] before[i]) == k;
            assert(key(s[i]) == k);
        }
        if exists|i: int| 0 <= i < s.len() && key(#[trigger] s[i]) == k {
            let i = choose|i: int| 0 <= i < s.len() && key(#[trigger] s[i]) == k;
            if i < before.len() {
                assert(key(before[i]) == k);
            }
        }
    } else {
        assert(s.filter(keep) =~= Seq::empty());
    }
}

/// The settings of routes are kept under the prefixes of their paths.
pub proof fn law_keys(
    o: RoutePolicyOverrideView,
    l: RouteRateLimitOverrideView,
    b: RouteBehaviorOverrideView,
)
    ensures
        control_plane::by_override_prefix()(o) == o.path_prefix,
        control_plane::by_limit_prefix()(l) == l.path_prefix,
        control_plane::by_behavior_prefix()(b) == b.path_prefix,
{
}

} // verus!
