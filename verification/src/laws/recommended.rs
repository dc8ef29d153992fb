//! Which contracts are recommended.

use crate::contracts;
use crate::recommendations;
use crate::routes;
use crate::text;
use crate::types::{FindingEvidenceView, FindingView, SecurityEvent};
use vstd::prelude::*;

verus! {

/// Whether an event is about a route.
pub open spec fn is_about(e: SecurityEvent, route: (Seq<char>, Seq<char>)) -> bool {
    text::upper_of(e.method@) == route.0 && routes::route_of(e.path@) == route.1
}

/// The events about a route, in order.
pub open spec fn about(events: Seq<SecurityEvent>, route: (Seq<char>, Seq<char>)) -> Seq<
    SecurityEvent,
> {
    events.filter(|e: SecurityEvent| is_about(e, route))
}

/// How many pieces of evidence say that a status was expected.
pub open spec fn status_votes(evidence: Seq<FindingEvidenceView>, status: u16) -> nat {
    evidence.filter(
        |e: FindingEvidenceView|
            e.location == "response.contract.status"@ && contracts::status_in(e.value_preview)
                == Some(status),
    ).len()
}

/// How many pieces of evidence say that a content type was expected.
pub open spec fn type_votes(evidence: Seq<FindingEvidenceView>, prefix: Seq<char>) -> nat {
    evidence.filter(
        |e: FindingEvidenceView|
            e.location == "response.contract.content_type"@ && contracts::labelled(
                e.value_preview,
                "expected_prefix="@,
            ) == Some(prefix),
    ).len()
}

/// Whether a piece of evidence names a header that was missing.
pub open spec fn names_header(e: FindingEvidenceView, name: Seq<char>) -> bool {
    e.location == "response.contract.missing_headers"@ && text::trimmed_fields_of(
        text::split_of(e.value_preview, ','),
    ).contains(name)
}

proof fn lemma_about(events: Seq<SecurityEvent>, route: (Seq<char>, Seq<char>))
    ensures
        recommendations::group_of(events, route) == about(events, route),
    decreases events.len(),
{
    reveal(Seq::filter);
    if events.len() > 0 {
        lemma_about(events.drop_last(), route);
        let e = events.last();
        assert(recommendations::event_route(e) == route <==> is_about(e, route));
    } else {
        assert(about(events, route) =~= Seq::empty());
    }
}

proof fn lemma_votes(evidence: Seq<FindingEvidenceView>, status: u16, prefix: Seq<char>)
    ensures
        recommendations::times(recommendations::statuses_in(evidence), status) == status_votes(
            evidence,
            status,
        ),
        recommendations::times(recommendations::types_in(evidence), prefix) == type_votes(
            evidence,
            prefix,
        ),
    decreases evidence.len(),
{
    reveal(Seq::filter);
    if evidence.len() > 0 {
        let before = evidence.drop_last();
        lemma_votes(before, status, prefix);
        lemma_times_pushed(
            recommendations::statuses_in(before),
            contracts::status_in(evidence.last().value_preview)->0,
            status,
        );
        lemma_times_pushed(
            recommendations::types_in(before),
            contracts::labelled(evidence.last().value_preview, "expected_prefix="@)->0,
            prefix,
        );
    }
}

proof fn lemma_times_pushed<A>(s: Seq<A>, last: A, x: A)
    ensures
        recommendations::times(s.push(last), x) == recommendations::times(s, x) + (if last == x {
            1nat
        } else {
            0
        }),
{
    assert(s.push(last).drop_last() =~= s);
}

proof fn lemma_times<A>(s: Seq<A>, x: A)
    ensures
        recommendations::times(s, x) > 0 <==> s.contains(x),
    decreases s.len(),
{
    if s.len() > 0 {
        let before = s.drop_last();
        lemma_times(before, x);
        assert(s.last() == s[s.len() - 1]);
        if before.contains(x) {
            let i = choose|i: int| 0 <= i < before.len() && before[i] == x;
            assert(s[i] == x);
        }
        if s.contains(x) && s.last() != x {
            let i = choose|i: int| 0 <= i < s.len() && s[i] == x;
            assert(before[i] == x);
        }
    }
}

/// The status and the content type that are recommended for a route are those that its events
/// expected most often. Where they expected none, they are a plain success and JSON.
pub proof fn law_recommended(
    events: Seq<SecurityEvent>,
    route: (Seq<char>, Seq<char>),
    status: u16,
    prefix: Seq<char>,
)
    ensures
        ({
            let r = recommendations::recommendation_of(events, route);
            let evidence = recommendations::group_evidence(about(events, route));
            &&& r.method == route.0 && r.normalized_path == route.1
            &&& r.supporting_events == about(events, route).len() as usize
            &&& status_votes(evidence, status) <= status_votes(evidence, r.recommended_status)
            &&& status_votes(evidence, r.recommended_status) == 0 ==> r.recommended_status == 200
            &&& type_votes(evidence, prefix) <= type_votes(
                evidence,
                r.recommended_content_type_prefix,
            )
            &&& type_votes(evidence, r.recommended_content_type_prefix) == 0
                ==> r.recommended_content_type_prefix == "application/json"@
        }),
{
    let r = recommendations::recommendation_of(events, route);
    let evidence = recommendations::group_evidence(about(events, route));
    let statuses = recommendations::statuses_in(evidence);
    let prefixes = recommendations::types_in(evidence);
    lemma_about(events, route);
    recommendations::law_most_frequent(statuses);
    recommendations::law_most_frequent(prefixes);
    lemma_votes(evidence, status, prefix);
    lemma_votes(evidence, r.recommended_status, r.recommended_content_type_prefix);
    lemma_times(statuses, status);
    lemma_times(prefixes, prefix);
    lemma_times(statuses, r.recommended_status);
    lemma_times(prefixes, r.recommended_content_type_prefix);
}

proof fn lemma_headers(evidence: Seq<FindingEvidenceView>, name: Seq<char>)
    ensures
        recommendations::headers_in(evidence).contains(name) <==> exists|i: int|
            0 <= i < evidence.len() && names_header(#[trigger] evidence[i], name),
    decreases evidence.len(),
{
    if evidence.len() > 0 {
        let before = evidence.drop_last();
        let e = evidence.last();
        let earlier = recommendations::headers_in(before);
        let named = text::trimmed_fields_of(text::split_of(e.value_preview, ','));
        lemma_headers(before, name);
        lemma_joined(earlier, named, name);
        assert(e == evidence[evidence.len() - 1]);
        assert(forall|i: int| 0 <= i < before.len() ==> #[trigger] before[i] == evidence[i]);
        if exists|i: int| 0 <= i < before.len() && names_header(#[trigger] before[i], name) {
            let i = choose|i: int|
                0 <= i < before.len() && names_header(#[trigger] before[i], name);
            assert(names_header(evidence[i], name));
        }
        if exists|i: int| 0 <= i < evidence.len() && names_header(#[trigger] evidence[i], name) {
            let i = choose|i: int|
                0 <= i < evidence.len() && names_header(#[trigger] evidence[i], name);
            if i < before.len() {
                assert(names_header(before[i], name));
            }
        }
    }
}

proof fn lemma_joined<A>(a: Seq<A>, b: Seq<A>, x: A)
    ensures
        (a + b).contains(x) <==> a.contains(x) || b.contains(x),
{
    let all = a + b;
    if a.contains(x) {
        let i = choose|i: int| 0 <= i < a.len() && a[i] == x;
        assert(all[i] == x);
    }
    if b.contains(x) {
        let i = choose|i: int| 0 <= i < b.len() && b[i] == x;
        assert(all[a.len() + i] == x);
    }
    if all.contains(x) {
        let i = choose|i: int| 0 <= i < all.len() && all[i] == x;
        if i < a.len() {
            assert(a[i] == x);
        } else {
            assert(b[i - a.len()] == x);
        }
    }
}

/// What is left of a list without its repetitions holds the same items, each once.
pub proof fn law_distinct(s: Seq<Seq<char>>, x: Seq<char>)
    ensures
        text::distinct_of(s).contains(x) <==> s.contains(x),
        text::distinct_of(s).no_duplicates(),
    decreases s.len(),
{
    if s.len() > 0 {
        let before = text::distinct_of(s.drop_last());
        law_distinct(s.drop_last(), x);
        law_distinct(s.drop_last(), s.last());
        lemma_joined(s.drop_last(), seq![s.last()], x);
        assert(s.drop_last() + seq![s.last()] =~= s);
        lemma_joined(before, seq![s.last()], x);
        assert(before + seq![s.last()] =~= before.push(s.last()));
        assert(seq![s.last()].contains(x) <==> x == s.last()) by {
            assert(seq![s.last()][0] == s.last());
        }
        let all = text::distinct_of(s);
        assert forall|i: int, j: int|
            0 <= i < all.len() && 0 <= j < all.len() && i != j implies all[i] != all[j] by {
            if i < before.len() && j < before.len() {
                assert(before[i] != before[j]);
            } else if i < before.len() {
                assert(before.contains(before[i]));
            } else {
                assert(before.contains(before[j]));
            }
        }
    }
}

/// The headers that are recommended for a route are those that its events missed, each once.
pub proof fn law_recommended_headers(
    events: Seq<SecurityEvent>,
    route: (Seq<char>, Seq<char>),
    name: Seq<char>,
)
    ensures
        ({
            let r = recommendations::recommendation_of(events, route).recommended_required_headers;
            let evidence = recommendations::group_evidence(about(events, route));
            &&& r.no_duplicates()
            &&& r.contains(name) <==> exists|i: int|
                0 <= i < evidence.len() && names_header(#[trigger] evidence[i], name)
        }),
{
    let evidence = recommendations::group_evidence(about(events, route));
    lemma_about(events, route);
    lemma_headers(evidence, name);
    law_distinct(recommendations::headers_in(evidence), name);
}

/// The evidence about events is that of the first broken contract of each.
pub proof fn law_evidence_gathered(events: Seq<SecurityEvent>, i: int, k: int)
    requires
        0 <= i < events.len(),
        0 <= k < events[i].findings.deep_view().len(),
        events[i].findings.deep_view()[k].rule_id == "response.contract_mismatch"@,
        forall|j: int|
            0 <= j < k ==> (#[trigger] events[i].findings.deep_view()[j]).rule_id
                != "response.contract_mismatch"@,
    ensures
        forall|e: FindingEvidenceView| #[trigger]
            events[i].findings.deep_view()[k].evidence.contains(e)
                ==> recommendations::group_evidence(events).contains(e),
    decreases events.len(),
{
    let before = events.drop_last();
    let last = match contracts::mismatch_evidence(events.last().findings.deep_view()) {
        Some(e) => e,
        None => Seq::empty(),
    };
    let own = events[i].findings.deep_view()[k].evidence;
    if i < before.len() {
        assert(before[i] == events[i]);
        law_evidence_gathered(before, i, k);
    } else {
        lemma_first_mismatch(events[i].findings.deep_view(), k);
    }
    assert forall|e: FindingEvidenceView| #[trigger] own.contains(
        e,
    ) implies recommendations::group_evidence(events).contains(e) by {
        lemma_joined(recommendations::group_evidence(before), last, e);
    }
}

proof fn lemma_first_mismatch(findings: Seq<FindingView>, k: int)
    requires
        0 <= k < findings.len(),
        findings[k].rule_id == "response.contract_mismatch"@,
        forall|j: int|
            0 <= j < k ==> (#[trigger] findings[j]).rule_id != "response.contract_mismatch"@,
    ensures
        contracts::mismatch_evidence(findings) == Some(findings[k].evidence),
    decreases findings.len(),
{
    if k > 0 {
        assert(findings[0].rule_id != "response.contract_mismatch"@);
        let rest = findings.drop_first();
        assert forall|j: int| 0 <= j < k - 1 implies (#[trigger] rest[j]).rule_id
            != "response.contract_mismatch"@ by {
            assert(rest[j] == findings[j + 1]);
        }
        lemma_first_mismatch(rest, k - 1);
    }
}

/// Every route of an event gets one recommendation, and no other does.
pub proof fn law_routes_recommended(events: Seq<SecurityEvent>, method: Seq<char>, path: Seq<char>)
    ensures
        ({
            let all = recommendations::recommendations_of(events);
            &&& (exists|i: int|
                0 <= i < all.len() && (#[trigger] all[i]).method == method
                    && all[i].normalized_path == path) <==> exists|i: int|
                0 <= i < events.len() && is_about(#[trigger] events[i], (method, path))
            &&& forall|i: int, j: int|
                0 <= i < j < all.len() ==> (#[trigger] all[i]).method != (#[trigger] all[j]).method
                    || all[i].normalized_path != all[j].normalized_path
        }),
{
    let all = recommendations::recommendations_of(events);
    let listed = recommendations::event_routes(events);
    let route = (method, path);
    recommendations::law_event_routes(events);
    lemma_listed(events, route);
    assert(forall|i: int|
        0 <= i < all.len() ==> (#[trigger] all[i]).method == listed[i].0 && all[i].normalized_path
            == listed[i].1);
    if exists|i: int|
        0 <= i < all.len() && (#[trigger] all[i]).method == method && all[i].normalized_path
            == path {
        let i = choose|i: int|
            0 <= i < all.len() && (#[trigger] all[i]).method == method && all[i].normalized_path
                == path;
        assert(listed[i] == route);
        assert(listed.contains(route));
    }
    if exists|i: int| 0 <= i < events.len() && is_about(#[trigger] events[i], route) {
        let i = choose|i: int| 0 <= i < events.len() && is_about(#[trigger] events[i], route);
        assert(recommendations::event_route(events[i]) == route);
        let j = choose|j: int| 0 <= j < listed.len() && listed[j] == route;
        assert(all[j].method == method && all[j].normalized_path == path);
    }
    assert forall|i: int, j: int| 0 <= i < j < all.len() implies (#[trigger] all[i]).method != (
    #[trigger] all[j]).method || all[i].normalized_path != all[j].normalized_path by {
        assert(listed[i] != listed[j]);
    }
}

proof fn lemma_listed(events: Seq<SecurityEvent>, route: (Seq<char>, Seq<char>))
    ensures
        recommendations::event_routes(events).contains(route) ==> exists|i: int|
            0 <= i < events.len() && is_about(#[trigger] events[i], route),
    decreases events.len(),
{
    if events.len() > 0 {
        let before = events.drop_last();
        let listed = recommendations::event_routes(before);
        lemma_listed(before, route);
        let last = recommendations::event_route(events.last());
        lemma_joined(listed, seq![last], route);
        assert(listed + seq![last] =~= listed.push(last));
        if recommendations::event_routes(events).contains(route) {
            if listed.contains(route) {
                let i = choose|i: int| 0 <= i < before.len() && is_about(#[trigger] before[i], route);
                assert(events[i] == before[i]);
                assert(is_about(events[i], route));
            } else {
                assert(seq![last][0] == last);
                assert(is_about(events[events.len() - 1], route));
            }
        }
    }
}

} // verus!
