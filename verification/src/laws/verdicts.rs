//! Who is trusted, what is suppressed, and what becomes of a request.

use crate::access;
use crate::access::{Allowlists, Trust};
use crate::config::AppConfig;
use crate::headers::Header;
use crate::mitigation;
use crate::net;
use crate::policy;
use crate::proxy;
use crate::records::AnalystSuppressionView;
use crate::routes;
use crate::store::{ActiveMitigationView, RecordView, SourceReputationEntry};
use crate::text;
use crate::text::CharClass;
use crate::types::{
    DecisionOutcomeView, Finding, FindingView, LivePolicyState, MitigationAction, RequestContext,
    Severity, SourceReputationView, Timestamp,
};
use vstd::prelude::*;

verus! {

/// A source is trusted where it is listed, listed for the path, or listed with the principal for
/// the path; a principal where a prefix of it is listed likewise. Nobody else is trusted.
pub proof fn law_trusted(
    lists: Allowlists,
    source_ip: Seq<char>,
    principal: Seq<char>,
    path: Seq<char>,
)
    ensures
        ({
            let sources = lists.sources.deep_view();
            let scoped_sources = lists.scoped_sources.deep_view();
            let principals = lists.principals.deep_view();
            let scoped_principals = lists.scoped_principals.deep_view();
            let tri_scoped = lists.tri_scoped.deep_view();
            let both = exists|i: int|
                0 <= i < tri_scoped.len() && (#[trigger] tri_scoped[i]).source_ip == source_ip
                    && text::has_prefix(principal, tri_scoped[i].principal_prefix)
                    && text::has_prefix(path, tri_scoped[i].path_prefix);
            let trust = access::trust_of(lists, source_ip, principal, path);
            &&& trust.source == {
                ||| exists|i: int|
                    0 <= i < sources.len() && (#[trigger] sources[i]).source_ip == source_ip
                ||| exists|i: int|
                    0 <= i < scoped_sources.len() && (#[trigger] scoped_sources[i]).source_ip
                        == source_ip && text::has_prefix(path, scoped_sources[i].path_prefix)
                ||| both
            }
            &&& trust.principal == {
                ||| exists|i: int|
                    0 <= i < principals.len() && text::has_prefix(
                        principal,
                        (#[trigger] principals[i]).principal_prefix,
                    )
                ||| exists|i: int|
                    0 <= i < scoped_principals.len() && text::has_prefix(
                        principal,
                        (#[trigger] scoped_principals[i]).principal_prefix,
                    ) && text::has_prefix(path, scoped_principals[i].path_prefix)
                ||| both
            }
        }),
{
    let scoped_sources = lists.scoped_sources.deep_view();
    let scoped_principals = lists.scoped_principals.deep_view();
    let tri_scoped = lists.tri_scoped.deep_view();
    if exists|i: int|
        0 <= i < tri_scoped.len() && (#[trigger] tri_scoped[i]).source_ip == source_ip
            && text::has_prefix(principal, tri_scoped[i].principal_prefix) && text::has_prefix(
            path,
            tri_scoped[i].path_prefix,
        ) {
        let i = choose|i: int|
            0 <= i < tri_scoped.len() && (#[trigger] tri_scoped[i]).source_ip == source_ip
                && text::has_prefix(principal, tri_scoped[i].principal_prefix) && text::has_prefix(
                path,
                tri_scoped[i].path_prefix,
            );
        assert(access::admits_all(tri_scoped[i], source_ip, principal, path));
    }
    if exists|i: int|
        0 <= i < scoped_sources.len() && (#[trigger] scoped_sources[i]).source_ip == source_ip
            && text::has_prefix(path, scoped_sources[i].path_prefix) {
        let i = choose|i: int|
            0 <= i < scoped_sources.len() && (#[trigger] scoped_sources[i]).source_ip == source_ip
                && text::has_prefix(path, scoped_sources[i].path_prefix);
        assert(access::admits_source(scoped_sources[i], source_ip, path));
    }
    if exists|i: int|
        0 <= i < scoped_principals.len() && text::has_prefix(
            principal,
            (#[trigger] scoped_principals[i]).principal_prefix,
        ) && text::has_prefix(path, scoped_principals[i].path_prefix) {
        let i = choose|i: int|
            0 <= i < scoped_principals.len() && text::has_prefix(
                principal,
                (#[trigger] scoped_principals[i]).principal_prefix,
            ) && text::has_prefix(path, scoped_principals[i].path_prefix);
        assert(access::admits_principal(scoped_principals[i], principal, path));
    }
}

/// Whether an analyst silenced a rule for a path.
pub open spec fn is_silenced(
    suppressions: Seq<AnalystSuppressionView>,
    rule_id: Seq<char>,
    path: Seq<char>,
) -> bool {
    exists|i: int|
        0 <= i < suppressions.len() && (#[trigger] suppressions[i]).rule_id == rule_id && (
        suppressions[i].path_prefix is None || text::has_prefix(
            path,
            suppressions[i].path_prefix->0,
        ))
}

proof fn lemma_wanted(
    suppressions: Seq<AnalystSuppressionView>,
    path: Seq<char>,
    findings: Seq<FindingView>,
)
    ensures
        access::wanted_of(suppressions, path, findings) == findings.filter(
            |f: FindingView| !is_silenced(suppressions, f.rule_id, path),
        ),
    decreases findings.len(),
{
    reveal(Seq::filter);
    let keep = |f: FindingView| !is_silenced(suppressions, f.rule_id, path);
    if findings.len() > 0 {
        let f = findings.last();
        lemma_wanted(suppressions, path, findings.drop_last());
        assert(access::is_suppressed(suppressions, f.rule_id, path) == is_silenced(
            suppressions,
            f.rule_id,
            path,
        )) by {
            if access::is_suppressed(suppressions, f.rule_id, path) {
                let i = choose|i: int|
                    0 <= i < suppressions.len() && access::silences(
                        #[trigger] suppressions[i],
                        f.rule_id,
                        path,
                    );
                assert(suppressions[i].rule_id == f.rule_id);
            }
            if is_silenced(suppressions, f.rule_id, path) {
                let i = choose|i: int|
                    0 <= i < suppressions.len() && (#[trigger] suppressions[i]).rule_id == f.rule_id
                        && (suppressions[i].path_prefix is None || text::has_prefix(
                        path,
                        suppressions[i].path_prefix->0,
                    ));
                assert(access::silences(suppressions[i], f.rule_id, path));
            }
        }
    } else {
        assert(findings.filter(keep) =~= findings);
    }
}

/// What was found about a request is an event where the request is not trusted and something
/// remains that no analyst silenced. The event holds what remains, in order, the decision on it, and
/// the request; in every other case there is none.
pub proof fn law_event(
    config: AppConfig,
    policy: LivePolicyState,
    reputations: Map<Seq<char>, RecordView>,
    context: RequestContext,
    trust: Trust,
    suppressions: Seq<AnalystSuppressionView>,
    findings: Seq<FindingView>,
)
    ensures
        ({
            let event = proxy::event_of(
                config,
                policy,
                reputations,
                context,
                proxy::counted_findings(trust, suppressions, context.path@, findings),
            );
            let wanted = findings.filter(
                |f: FindingView| !is_silenced(suppressions, f.rule_id, context.path@),
            );
            &&& event is Some == (!trust.source && !trust.principal && wanted.len() > 0)
            &&& event is Some ==> {
                let e = event->0;
                &&& e.findings == wanted
                &&& e.request_id == context.request_id@
                &&& e.source_ip == context.source_ip@
                &&& e.method == context.method@
                &&& e.path == context.path@
                &&& e.timestamp == context.timestamp
                &&& e.normalized_route == Some(routes::route_of(context.path@))
                &&& e.decision == policy::decision_of(
                    config,
                    policy.policy_mode,
                    policy.detector_exceptions@,
                    context.path@,
                    mitigation::score_in(reputations, context.source_ip@),
                    wanted,
                )
            }
        }),
{
    lemma_wanted(suppressions, context.path@, findings);
}

/// Every header goes to the upstream server, in order, but those of the connection and those that
/// are not text.
pub proof fn law_forwarded_headers(fields: Seq<Header>, name: Seq<char>, value: Seq<char>)
    ensures
        proxy::forwarded_of(fields).contains((name, value)) == {
            let lower = text::lower_of(name);
            &&& lower != "host"@ && lower != "connection"@ && lower != "content-length"@ && lower
                != "transfer-encoding"@
            &&& exists|i: int|
                0 <= i < fields.len() && (#[trigger] fields[i]).name@ == name && fields[i].value is Some
                    && fields[i].value->0@ == value
        },
    decreases fields.len(),
{
    if fields.len() > 0 {
        let before = fields.drop_last();
        let f = fields.last();
        law_forwarded_headers(before, name, value);
        let some = proxy::forwarded_of(before);
        let all = proxy::forwarded_of(fields);
        assert(f == fields[fields.len() - 1]);
        assert(forall|i: int| 0 <= i < before.len() ==> #[trigger] before[i] == fields[i]);
        if some.contains((name, value)) {
            let i = choose|i: int| 0 <= i < some.len() && some[i] == (name, value);
            assert(all[i] == (name, value));
            let j = choose|j: int|
                0 <= j < before.len() && (#[trigger] before[j]).name@ == name && before[j].value is Some
                    && before[j].value->0@ == value;
            assert(fields[j].name@ == name);
        }
        if f.name@ == name && f.value is Some && f.value->0@ == value
            && !proxy::skips_request_header(name) {
            assert(all[all.len() - 1] == (name, value));
        }
        if all.contains((name, value)) {
            let i = choose|i: int| 0 <= i < all.len() && all[i] == (name, value);
            if i < some.len() {
                assert(some[i] == (name, value));
            }
        }
        if exists|i: int|
            0 <= i < fields.len() && (#[trigger] fields[i]).name@ == name && fields[i].value is Some
                && fields[i].value->0@ == value {
            let i = choose|i: int|
                0 <= i < fields.len() && (#[trigger] fields[i]).name@ == name && fields[i].value is Some
                    && fields[i].value->0@ == value;
            if i < before.len() {
                assert(before[i].name@ == name);
            }
        }
    }
}

/// A header of a response comes back to the client but those of the connection.
pub proof fn law_returned_headers(name: Seq<char>)
    ensures
        proxy::skips_response_header(name) == (text::lower_of(name) == "connection"@
            || text::lower_of(name) == "transfer-encoding"@),
{
}

proof fn lemma_trim_end(s: Seq<char>, c: char, n: nat)
    requires
        s.len() == 0 || s.last() != c,
    ensures
        text::trim_end_of(s + Seq::new(n, |i: int| c), CharClass::Only(c)) == s,
    decreases n,
{
    let t = s + Seq::new(n, |i: int| c);
    if n == 0 {
        assert(t =~= s);
    } else {
        let m = (n - 1) as nat;
        lemma_trim_end(s, c, m);
        assert(t.drop_last() =~= s + Seq::new(m, |i: int| c));
    }
}

proof fn lemma_trim_start(s: Seq<char>, c: char, n: nat)
    requires
        s.len() == 0 || s[0] != c,
    ensures
        text::trim_start_of(Seq::new(n, |i: int| c) + s, CharClass::Only(c)) == s,
    decreases n,
{
    let t = Seq::new(n, |i: int| c) + s;
    if n == 0 {
        assert(t =~= s);
    } else {
        let m = (n - 1) as nat;
        lemma_trim_start(s, c, m);
        assert(t.drop_first() =~= Seq::new(m, |i: int| c) + s);
    }
}

/// The address at the upstream server is its base, one slash, the path and, where there is one that
/// is not empty, the query behind a question mark.
pub proof fn law_upstream_url(
    base: Seq<char>,
    slashes: nat,
    more: nat,
    path: Seq<char>,
    query: Option<Seq<char>>,
)
    requires
        base.len() == 0 || base.last() != '/',
        path.len() == 0 || path[0] != '/',
    ensures
        ({
            let url = proxy::upstream_url_of(
                base + Seq::new(slashes, |i: int| '/'),
                Seq::new(more, |i: int| '/') + path,
                query,
            );
            if query is Some && query->0.len() > 0 {
                url == base + "/"@ + path + "?"@ + query->0
            } else {
                url == base + "/"@ + path
            }
        }),
{
    lemma_trim_end(base, '/', slashes);
    lemma_trim_start(path, '/', more);
}

/// A block lasts for its seconds from when it was placed, and not a moment longer; it is on the
/// source that it was placed on and on no other.
pub proof fn law_block_lasts_its_time(
    m: Map<Seq<char>, RecordView>,
    ip: Seq<char>,
    other: Seq<char>,
    seconds: u64,
    reason: Seq<char>,
    action_id: Seq<char>,
    start: Timestamp,
    now: Timestamp,
)
    requires
        start + seconds * 1_000_000_000 <= 8_210_266_876_799_999_999_999,
        -8_334_601_228_800_000_000_000 <= start,
    ensures
        ({
            let b = mitigation::block_of(ip, seconds, reason, action_id, start);
            let after = m.insert(ip, RecordView::Block(b));
            &&& b.source_ip == ip && b.reason == reason && b.action_id == action_id && b.created_at
                == start
            &&& b.action == (MitigationAction::BlockSourceIpTemporary { ttl_secs: seconds })
            &&& mitigation::active_in(after, ip, now) == (now < start + seconds * 1_000_000_000)
            &&& mitigation::expired_in(after, ip, now) == (now >= start + seconds * 1_000_000_000)
            &&& other != ip ==> mitigation::active_in(after, other, now) == mitigation::active_in(
                m,
                other,
                now,
            )
        }),
{
    assert(mitigation::SECOND == 1_000_000_000);
    assert(seconds * mitigation::SECOND == seconds * 1_000_000_000);
}

/// A rejected request is answered with the status and the message of the rejection, or 403 where
/// that is no status.
pub proof fn law_answer(outcome: DecisionOutcomeView)
    ensures
        outcome is Reject ==> mitigation::answer_of(outcome).1 == outcome->message,
        outcome is Reject && 100 <= outcome->status_code <= 999 ==> mitigation::answer_of(outcome).0
            == outcome->status_code,
        outcome is Reject && !(100 <= outcome->status_code <= 999) ==> mitigation::answer_of(
            outcome,
        ).0 == 403,
        outcome == DecisionOutcomeView::Allow ==> mitigation::answer_of(outcome) == (
            200u16,
            "allowed"@,
        ),
{
}

/// Every temporary block among the actions of a decision is placed on the source, for its own time
/// and with an id of its own, in order; other actions place none.
pub proof fn law_blocks_placed(
    actions: Seq<MitigationAction>,
    action: MitigationAction,
    ip: Seq<char>,
    reason: Seq<char>,
    action_ids: Seq<Seq<char>>,
    now: Timestamp,
)
    ensures
        ({
            let before = mitigation::blocks_for(actions, ip, reason, action_ids, now);
            let after = mitigation::blocks_for(actions.push(action), ip, reason, action_ids, now);
            match action {
                MitigationAction::BlockSourceIpTemporary { ttl_secs } => after == before.push(
                    ActiveMitigationView {
                        action_id: action_ids[before.len() as int],
                        source_ip: ip,
                        action,
                        created_at: now,
                        expires_at: (now + ttl_secs * 1_000_000_000) as i128,
                        reason,
                    },
                ),
                _ => after == before,
            }
        }),
        mitigation::blocks_for(Seq::empty(), ip, reason, action_ids, now).len() == 0,
{
    assert(actions.push(action).drop_last() =~= actions);
}

/// What a finding adds to the bad reputation of its source.
pub open spec fn points(severity: Severity) -> int {
    if severity == Severity::Critical {
        6
    } else if severity == Severity::High {
        4
    } else if severity == Severity::Medium {
        2
    } else {
        1
    }
}

/// A source loses reputation for every finding, more for graver ones.
pub proof fn law_reputation_lost(findings: Seq<Finding>, f: Finding)
    ensures
        mitigation::reputation_delta_of(findings.push(f)) == mitigation::reputation_delta_of(
            findings,
        ) + points(f.severity),
        mitigation::reputation_delta_of(Seq::empty()) == 0,
{
    assert(findings.push(f).drop_last() =~= findings);
}

/// The reputation of a source after a decision is what it was and what the findings add, held to
/// its range; that of other sources is as it was, and nothing changes without findings.
pub proof fn law_reputation_after(
    m: Map<Seq<char>, RecordView>,
    ip: Seq<char>,
    other: Seq<char>,
    findings: Seq<Finding>,
    now: Timestamp,
)
    requires
        0 <= mitigation::reputation_delta_of(findings) <= i32::MAX,
    ensures
        ({
            let after = mitigation::reputations_after(m, ip, findings, now);
            let sum = mitigation::score_in(m, ip) + mitigation::reputation_delta_of(findings);
            &&& findings.len() == 0 ==> after == m
            &&& findings.len() > 0 ==> mitigation::score_in(after, ip) == (if sum > i32::MAX {
                i32::MAX
            } else {
                sum as i32
            })
            &&& findings.len() > 0 ==> mitigation::reputation_in(after, ip)->0.last_seen_at == now
            &&& other != ip ==> mitigation::reputation_in(after, other) == mitigation::reputation_in(
                m,
                other,
            )
            &&& !m.dom().contains(ip) ==> mitigation::score_in(m, ip) == 0
        }),
{
}

/// Blocks that were kept elsewhere come back unless they have run out; of several for one source the
/// last counts, and other sources are as they were.
pub proof fn law_blocks_come_back(
    m: Map<Seq<char>, RecordView>,
    s: Seq<ActiveMitigationView>,
    b: ActiveMitigationView,
    ip: Seq<char>,
    now: Timestamp,
)
    ensures
        mitigation::blocks_hydrated(m, Seq::empty(), now) == m,
        mitigation::block_in(mitigation::blocks_hydrated(m, s.push(b), now), ip) == (if b.source_ip
            == ip && now < b.expires_at {
            Some(b)
        } else {
            mitigation::block_in(mitigation::blocks_hydrated(m, s, now), ip)
        }),
{
    assert(s.push(b).drop_last() =~= s);
}

/// Reputations that were kept elsewhere come back under the canonical text of their source; those
/// whose source is no address do not.
pub proof fn law_reputations_come_back(
    m: Map<Seq<char>, RecordView>,
    s: Seq<SourceReputationView>,
    r: SourceReputationView,
    ip: Seq<char>,
)
    ensures
        mitigation::reputations_hydrated(m, Seq::empty()) == m,
        mitigation::reputation_in(mitigation::reputations_hydrated(m, s.push(r)), ip) == (
        if net::canonical_ip_of(r.source_ip) == Some(ip) {
            Some(
                SourceReputationEntry {
                    suspicious_score: r.suspicious_score,
                    last_seen_at: r.last_seen_at,
                },
            )
        } else {
            mitigation::reputation_in(mitigation::reputations_hydrated(m, s), ip)
        }),
{
    assert(s.push(r).drop_last() =~= s);
}

} // verus!
