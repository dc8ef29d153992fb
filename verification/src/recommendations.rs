//! Response contracts that observed mismatches speak for.

use crate::contracts;
use crate::records::{
    ContractRecommendation, ContractRecommendationSet, ContractRecommendationSetView,
    ContractRecommendationView,
};
use crate::routes;
use crate::text;
use crate::types::{FindingEvidence, FindingEvidenceView, SecurityEvent, Timestamp};
use vstd::prelude::*;

verus! {

/// The route of an event: the method in upper case and the normal form of the path.
pub open spec fn event_route(e: SecurityEvent) -> (Seq<char>, Seq<char>) {
    (text::upper_of(e.method@), routes::route_of(e.path@))
}

/// The routes of some events, each once, in the order in which they first come.
pub open spec fn event_routes(events: Seq<SecurityEvent>) -> Seq<(Seq<char>, Seq<char>)>
    decreases events.len(),
{
    if events.len() == 0 {
        Seq::empty()
    } else {
        let before = event_routes(events.drop_last());
        let route = event_route(events.last());
        if before.contains(route) {
            before
        } else {
            before.push(route)
        }
    }
}

fn list_has_route(routes: &Vec<(String, String)>, method: &str, path: &str) -> (r: bool)
    ensures
        r == routes.deep_view().contains((method@, path@)),
{
    let ghost all = routes.deep_view();
    let mut i: usize = 0;
    while i < routes.len()
        invariant
            i <= routes@.len(),
            all == routes.deep_view(),
            forall|j: int| 0 <= j < i ==> all[j] != (method@, path@),
        decreases routes@.len() - i,
    {
        assert(all[i as int] == (routes@[i as int].0@, routes@[i as int].1@));
        if text::same(routes[i].0.as_str(), method) && text::same(routes[i].1.as_str(), path) {
            return true;
        }
        i = i + 1;
    }
    false
}

fn list_event_routes(events: &Vec<SecurityEvent>) -> (r: Vec<(String, String)>)
    ensures
        r.deep_view() == event_routes(events@),
{
    let mut out: Vec<(String, String)> = Vec::new();
    let mut i: usize = 0;
    assert(events@.take(0) =~= Seq::empty());
    assert(out.deep_view() =~= Seq::empty());
    while i < events.len()
        invariant
            i <= events@.len(),
            out.deep_view() == event_routes(events@.take(i as int)),
        decreases events@.len() - i,
    {
        assert(events@.take(i + 1).drop_last() =~= events@.take(i as int));
        let method = text::to_ascii_uppercase(events[i].method.as_str());
        let path = routes::security_route(events[i].path.as_str());
        if !list_has_route(&out, method.as_str(), path.as_str()) {
            text::push_pair(&mut out, method, path);
        }
        i = i + 1;
    }
    assert(events@.take(i as int) =~= events@);
    out
}

/// Every route of an event is listed, and none twice.
pub proof fn law_event_routes(events: Seq<SecurityEvent>)
    ensures
        event_routes(events).no_duplicates(),
        forall|i: int|
            0 <= i < events.len() ==> event_routes(events).contains(
                event_route(#[trigger] events[i]),
            ),
    decreases events.len(),
{
    if events.len() > 0 {
        let d = events.drop_last();
        law_event_routes(d);
        let before = event_routes(d);
        let all = event_routes(events);
        let last = event_route(events.last());
        assert forall|i: int| 0 <= i < events.len() implies all.contains(
            event_route(#[trigger] events[i]),
        ) by {
            if i < d.len() {
                assert(before.contains(event_route(d[i])));
                let p = choose|p: int| 0 <= p < before.len() && before[p] == event_route(d[i]);
                assert(all[p] == before[p]);
            } else if !before.contains(last) {
                assert(all[before.len() as int] == last);
            }
        }
        assert forall|i: int, j: int|
            0 <= i < all.len() && 0 <= j < all.len() && i != j implies all[i] != all[j] by {
            if i < before.len() && j < before.len() {
                assert(before[i] != before[j]);
            } else if i < before.len() {
                assert(before.contains(before[i]));
            } else {
                assert(before.contains(before[j]));
            }
        }
    }
}

/// The events of a route.
pub open spec fn group_of(
    events: Seq<SecurityEvent>,
    route: (Seq<char>, Seq<char>),
) -> Seq<SecurityEvent>
    decreases events.len(),
{
    if events.len() == 0 {
        Seq::empty()
    } else {
        let before = group_of(events.drop_last(), route);
        if event_route(events.last()) == route {
            before.push(events.last())
        } else {
            before
        }
    }
}

/// The evidence of the broken contracts in some events, one after the other.
pub open spec fn group_evidence(events: Seq<SecurityEvent>) -> Seq<FindingEvidenceView>
    decreases events.len(),
{
    if events.len() == 0 {
        Seq::empty()
    } else {
        group_evidence(events.drop_last()) + (match contracts::mismatch_evidence(
            events.last().findings.deep_view(),
        ) {
            Some(e) => e,
            None => Seq::empty(),
        })
    }
}

/// The statuses that some evidence says were expected.
pub open spec fn statuses_in(evidence: Seq<FindingEvidenceView>) -> Seq<u16>
    decreases evidence.len(),
{
    if evidence.len() == 0 {
        Seq::empty()
    } else {
        let before = statuses_in(evidence.drop_last());
        let e = evidence.last();
        if e.location == "response.contract.status"@ && contracts::status_in(
            e.value_preview,
        ) is Some {
            before.push(contracts::status_in(e.value_preview)->0)
        } else {
            before
        }
    }
}

/// The content types that some evidence says were expected.
pub open spec fn types_in(evidence: Seq<FindingEvidenceView>) -> Seq<Seq<char>>
    decreases evidence.len(),
{
    if evidence.len() == 0 {
        Seq::empty()
    } else {
        let before = types_in(evidence.drop_last());
        let e = evidence.last();
        let named = contracts::labelled(e.value_preview, "expected_prefix="@);
        if e.location == "response.contract.content_type"@ && named is Some {
            before.push(named->0)
        } else {
            before
        }
    }
}

/// The headers that some evidence says were missing.
pub open spec fn headers_in(evidence: Seq<FindingEvidenceView>) -> Seq<Seq<char>>
    decreases evidence.len(),
{
    if evidence.len() == 0 {
        Seq::empty()
    } else {
        let before = headers_in(evidence.drop_last());
        let e = evidence.last();
        if e.location == "response.contract.missing_headers"@ {
            before + text::trimmed_fields_of(text::split_of(e.value_preview, ','))
        } else {
            before
        }
    }
}

/// How often an item is in a list.
pub open spec fn times<A>(s: Seq<A>, x: A) -> nat
    decreases s.len(),
{
    if s.len() == 0 {
        0
    } else {
        times(s.drop_last(), x) + (if s.last() == x {
            1nat
        } else {
            0
        })
    }
}

/// The item that is most often in a list; of several the one that comes first.
pub open spec fn most_frequent<A>(s: Seq<A>) -> Option<A> {
    best_among(s, s)
}

/// The item of `candidates` that is most often in `s`; of several the one that comes first.
pub open spec fn best_among<A>(candidates: Seq<A>, s: Seq<A>) -> Option<A>
    decreases candidates.len(),
{
    if candidates.len() == 0 {
        None
    } else {
        match best_among(candidates.drop_last(), s) {
            None => Some(candidates.last()),
            Some(best) => if times(s, candidates.last()) > times(s, best) {
                Some(candidates.last())
            } else {
                Some(best)
            },
        }
    }
}

/// No item of the list is in it more often than the one that is picked, which is an item of it.
pub proof fn law_most_frequent<A>(s: Seq<A>)
    ensures
        most_frequent(s) is Some == (s.len() > 0),
        s.len() > 0 ==> s.contains(most_frequent(s)->0) && forall|x: A| #[trigger]
            s.contains(x) ==> times(s, x) <= times(s, most_frequent(s)->0),
{
    lemma_best(s, s);
}

proof fn lemma_best<A>(candidates: Seq<A>, s: Seq<A>)
    ensures
        best_among(candidates, s) is Some == (candidates.len() > 0),
        candidates.len() > 0 ==> candidates.contains(best_among(candidates, s)->0) && forall|x: A|
            #[trigger]
            candidates.contains(x) ==> times(s, x) <= times(s, best_among(candidates, s)->0),
    decreases candidates.len(),
{
    if candidates.len() > 0 {
        let d = candidates.drop_last();
        lemma_best(d, s);
        let best = best_among(candidates, s)->0;
        assert(candidates[candidates.len() - 1] == candidates.last());
        if d.len() > 0 {
            let before = best_among(d, s)->0;
            let p = choose|p: int| 0 <= p < d.len() && d[p] == before;
            assert(candidates[p] == before);
        }
        assert forall|x: A| #[trigger] candidates.contains(x) implies times(s, x) <= times(
            s,
            best,
        ) by {
            let p = choose|p: int| 0 <= p < candidates.len() && candidates[p] == x;
            if p < d.len() {
                assert(d[p] == x);
                assert(d.contains(x));
            }
        }
    }
}

fn count_status(s: &Vec<u16>, x: u16) -> (r: usize)
    ensures
        r == times(s@, x),
{
    let mut n: usize = 0;
    let mut i: usize = 0;
    assert(s@.take(0) =~= Seq::empty());
    while i < s.len()
        invariant
            i <= s@.len(),
            n <= i,
            n == times(s@.take(i as int), x),
        decreases s@.len() - i,
    {
        assert(s@.take(i + 1).drop_last() =~= s@.take(i as int));
        if s[i] == x {
            n = n + 1;
        }
        i = i + 1;
    }
    assert(s@.take(i as int) =~= s@);
    n
}

fn most_frequent_status(s: &Vec<u16>) -> (r: Option<u16>)
    ensures
        r == most_frequent(s@),
{
    let mut best: Option<u16> = None;
    let mut i: usize = 0;
    assert(s@.take(0) =~= Seq::empty());
    while i < s.len()
        invariant
            i <= s@.len(),
            best == best_among(s@.take(i as int), s@),
        decreases s@.len() - i,
    {
        assert(s@.take(i + 1).drop_last() =~= s@.take(i as int));
        let x: u16 = s[i];
        match best {
            None => {
                best = Some(x);
            },
            Some(b) => {
                if count_status(s, x) > count_status(s, b) {
                    best = Some(x);
                }
            },
        }
        i = i + 1;
    }
    assert(s@.take(i as int) =~= s@);
    best
}

fn count_text(s: &Vec<String>, x: &str) -> (r: usize)
    ensures
        r == times(s.deep_view(), x@),
{
    let ghost all = s.deep_view();
    let mut n: usize = 0;
    let mut i: usize = 0;
    assert(all.take(0) =~= Seq::empty());
    while i < s.len()
        invariant
            i <= s@.len(),
            n <= i,
            all == s.deep_view(),
            n == times(all.take(i as int), x@),
        decreases s@.len() - i,
    {
        assert(all.take(i + 1).drop_last() =~= all.take(i as int));
        assert(all[i as int] == s@[i as int]@);
        if text::same(s[i].as_str(), x) {
            n = n + 1;
        }
        i = i + 1;
    }
    assert(all.take(i as int) =~= all);
    n
}

fn most_frequent_text(s: &Vec<String>) -> (r: Option<String>)
    ensures
        r.deep_view() == most_frequent(s.deep_view()),
{
    let ghost all = s.deep_view();
    let mut best: Option<String> = None;
    let mut i: usize = 0;
    assert(all.take(0) =~= Seq::empty());
    while i < s.len()
        invariant
            i <= s@.len(),
            all == s.deep_view(),
            best.deep_view() == best_among(all.take(i as int), all),
        decreases s@.len() - i,
    {
        assert(all.take(i + 1).drop_last() =~= all.take(i as int));
        assert(all[i as int] == s@[i as int]@);
        let better = match &best {
            None => true,
            Some(b) => count_text(s, s[i].as_str()) > count_text(s, b.as_str()),
        };
        if better {
            best = Some(s[i].clone());
        }
        i = i + 1;
    }
    assert(all.take(i as int) =~= all);
    best
}

/// The contract that the events of a route speak for.
pub open spec fn recommendation_of(
    events: Seq<SecurityEvent>,
    route: (Seq<char>, Seq<char>),
) -> ContractRecommendationView {
    let group = group_of(events, route);
    let evidence = group_evidence(group);
    ContractRecommendationView {
        method: route.0,
        normalized_path: route.1,
        recommended_status: match most_frequent(statuses_in(evidence)) {
            Some(s) => s,
            None => 200,
        },
        recommended_content_type_prefix: match most_frequent(types_in(evidence)) {
            Some(t) => t,
            None => "application/json"@,
        },
        recommended_required_headers: text::distinct_of(headers_in(evidence)),
        supporting_events: group.len() as usize,
    }
}

/// Copies evidence to the end of a list.
fn extend_evidence(out: &mut Vec<FindingEvidence>, more: &Vec<FindingEvidence>)
    ensures
        final(out).deep_view() == old(out).deep_view() + more.deep_view(),
{
    let ghost start = out.deep_view();
    let ghost all = more.deep_view();
    let mut i: usize = 0;
    assert(start =~= start + all.take(0));
    while i < more.len()
        invariant
            i <= more@.len(),
            all == more.deep_view(),
            out.deep_view() == start + all.take(i as int),
        decreases more@.len() - i,
    {
        let ghost before = out.deep_view();
        let item = more[i].clone();
        let ghost view = item.deep_view();
        assert(view == all[i as int]);
        out.push(item);
        assert(out.deep_view() =~= before.push(view));
        i = i + 1;
        assert(out.deep_view() =~= start + all.take(i as int));
    }
    assert(all.take(i as int) =~= all);
}

/// The evidence of the events of a route, and how many events these are.
fn collect_group(events: &Vec<SecurityEvent>, method: &str, path: &str) -> (r: (
    Vec<FindingEvidence>,
    usize,
))
    ensures
        r.0.deep_view() == group_evidence(group_of(events@, (method@, path@))),
        r.1 == group_of(events@, (method@, path@)).len(),
{
    let mut evidence: Vec<FindingEvidence> = Vec::new();
    let mut count: usize = 0;
    let mut i: usize = 0;
    assert(events@.take(0) =~= Seq::empty());
    assert(evidence.deep_view() =~= Seq::empty());
    while i < events.len()
        invariant
            i <= events@.len(),
            count <= i,
            evidence.deep_view() == group_evidence(
                group_of(events@.take(i as int), (method@, path@)),
            ),
            count == group_of(events@.take(i as int), (method@, path@)).len(),
        decreases events@.len() - i,
    {
        let ghost group = group_of(events@.take(i as int), (method@, path@));
        assert(events@.take(i + 1).drop_last() =~= events@.take(i as int));
        let event = &events[i];
        let m = text::to_ascii_uppercase(event.method.as_str());
        let p = routes::security_route(event.path.as_str());
        if text::same(m.as_str(), method) && text::same(p.as_str(), path) {
            assert(group.push(*event).drop_last() =~= group);
            count = count + 1;
            if let Some(found) = contracts::find_mismatch(&event.findings) {
                extend_evidence(&mut evidence, found);
            } else {
                assert(evidence.deep_view() + Seq::<FindingEvidenceView>::empty()
                    =~= evidence.deep_view());
            }
        }
        i = i + 1;
    }
    assert(events@.take(i as int) =~= events@);
    (evidence, count)
}

/// Works out the contract that the events of a route speak for.
pub fn recommend_for_route(events: &Vec<SecurityEvent>, method: &str, path: &str) -> (r:
    ContractRecommendation)
    ensures
        r.deep_view() == recommendation_of(events@, (method@, path@)),
{
    let (evidence, supporting_events) = collect_group(events, method, path);
    let ghost all = evidence.deep_view();
    let mut statuses: Vec<u16> = Vec::new();
    let mut types: Vec<String> = Vec::new();
    let mut names: Vec<String> = Vec::new();
    let mut i: usize = 0;
    assert(all.take(0) =~= Seq::empty());
    assert(types.deep_view() =~= Seq::empty());
    assert(names.deep_view() =~= Seq::empty());
    while i < evidence.len()
        invariant
            i <= evidence@.len(),
            all == evidence.deep_view(),
            statuses@ == statuses_in(all.take(i as int)),
            types.deep_view() == types_in(all.take(i as int)),
            names.deep_view() == headers_in(all.take(i as int)),
        decreases evidence@.len() - i,
    {
        assert(all.take(i + 1).drop_last() =~= all.take(i as int));
        assert(all.take(i + 1).last() == evidence@[i as int].deep_view());
        let place = evidence[i].location.as_str();
        let value = evidence[i].value_preview.as_str();
        if text::same(place, "response.contract.status") {
            if let Some(status) = contracts::read_status(value) {
                statuses.push(status);
            }
        }
        if text::same(place, "response.contract.content_type") {
            if let Some(named) = contracts::read_label(value, "expected_prefix=") {
                text::push_text(&mut types, named);
            }
        }
        if text::same(place, "response.contract.missing_headers") {
            let fields = text::trimmed_fields(value, ',');
            text::extend_list(&mut names, fields);
        }
        i = i + 1;
    }
    assert(all.take(i as int) =~= all);
    let recommended_status: u16 = match most_frequent_status(&statuses) {
        Some(s) => s,
        None => 200,
    };
    let recommended_content_type_prefix = match most_frequent_text(&types) {
        Some(t) => t,
        None => "application/json".to_string(),
    };
    ContractRecommendation {
        method: method.to_string(),
        normalized_path: path.to_string(),
        recommended_status,
        recommended_content_type_prefix,
        recommended_required_headers: text::distinct(&names),
        supporting_events,
    }
}

/// The contracts that some events speak for, one for each route.
pub open spec fn recommendations_of(events: Seq<SecurityEvent>) -> Seq<ContractRecommendationView> {
    event_routes(events).map_values(
        |route: (Seq<char>, Seq<char>)| recommendation_of(events, route),
    )
}

/// Works out the contracts that some events about broken contracts speak for.
pub fn build_contract_recommendations(events: &Vec<SecurityEvent>, now: Timestamp) -> (r:
    ContractRecommendationSet)
    ensures
        r.deep_view() == (ContractRecommendationSetView {
            generated_at: now,
            items: recommendations_of(events@),
        }),
{
    let routes = list_event_routes(events);
    let ghost all = recommendations_of(events@);
    let ghost keys = routes.deep_view();
    let mut items: Vec<ContractRecommendation> = Vec::new();
    let mut i: usize = 0;
    assert(items.deep_view() =~= all.take(0));
    while i < routes.len()
        invariant
            i <= routes@.len(),
            keys == routes.deep_view(),
            keys == event_routes(events@),
            all == recommendations_of(events@),
            items.deep_view() == all.take(i as int),
        decreases routes@.len() - i,
    {
        assert(keys[i as int] == (routes@[i as int].0@, routes@[i as int].1@));
        let ghost before = items.deep_view();
        let item = recommend_for_route(events, routes[i].0.as_str(), routes[i].1.as_str());
        let ghost view = item.deep_view();
        assert(view == all[i as int]);
        items.push(item);
        assert(items.deep_view() =~= before.push(view));
        i = i + 1;
        assert(items.deep_view() =~= all.take(i as int));
    }
    assert(items.deep_view() =~= all);
    ContractRecommendationSet { generated_at: now, items }
}

} // verus!
